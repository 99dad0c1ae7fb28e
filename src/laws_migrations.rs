//! Laws of the state-migration planner.
use vstd::prelude::*;
use crate::migrations::{
    count_creates, create_kw, dedup, dedup_upto, default_columns, default_fields, is_create,
    lemma_dedup_nonempty, plan, plan_one, render_create, repeats_earlier, seen_before,
    table_name, user_columns, versions_migration, versions_prefix, view_columns, view_migration,
};
use crate::text::{contains, join, occurs_at, starts_with};

verus! {

proof fn lemma_plan_concat(a: Seq<Seq<char>>, b: Seq<Seq<char>>)
    ensures
        plan(a + b) == plan(a) + plan(b),
    decreases b.len(),
{
    if b.len() == 0 {
        assert(a + b =~= a);
        assert(plan(b) =~= Seq::<Seq<char>>::empty());
        assert(plan(a) + plan(b) =~= plan(a));
    } else {
        assert((a + b).drop_last() =~= a + b.drop_last());
        assert((a + b).last() == b.last());
        lemma_plan_concat(a, b.drop_last());
        assert(plan(a) + plan(b) =~= plan(a) + plan(b.drop_last()) + plan_one(b.last()));
    }
}

/// Planning yields one migration per user migration, plus two more for each
/// state-table migration.
pub proof fn law_plan_len(ms: Seq<Seq<char>>)
    ensures
        plan(ms).len() == ms.len() + 2 * count_creates(ms),
    decreases ms.len(),
{
    if ms.len() > 0 {
        law_plan_len(ms.drop_last());
    }
}

/// The user migration at `i` lands at position `i + 2 * (creates before it)`:
/// a migration that is not a state-table migration is kept byte for byte, and a
/// state-table migration is followed by its version table, whose statement starts
/// with `CREATE TABLE IF NOT EXISTS` and the version-table prefix.
pub proof fn law_plan_positions(ms: Seq<Seq<char>>, i: int)
    requires
        0 <= i < ms.len(),
    ensures
        ({
            let p = plan(ms);
            let at = i + 2 * count_creates(ms.subrange(0, i));
            if is_create(ms[i]) {
                &&& at + 2 < p.len()
                &&& p[at] == view_migration(ms[i])
                &&& p[at + 1] == versions_migration(ms[i])
                &&& starts_with(p[at + 1], create_kw() + " "@ + versions_prefix())
            } else {
                at < p.len() && p[at] == ms[i]
            }
        }),
{
    let a = ms.subrange(0, i);
    let b = ms.subrange(i, ms.len() as int);
    assert(ms =~= a + b);
    lemma_plan_concat(a, b);
    assert(b =~= seq![ms[i]] + b.drop_first());
    lemma_plan_concat(seq![ms[i]], b.drop_first());
    lemma_plan_single(ms[i]);
    law_plan_len(a);
    let p = plan(ms);
    assert(p =~= plan(a) + (plan_one(ms[i]) + plan(b.drop_first())));
    if is_create(ms[i]) {
        let v = versions_migration(ms[i]);
        let pre = create_kw() + " "@ + versions_prefix();
        assert(v.subrange(0, pre.len() as int) =~= pre);
    }
}

proof fn lemma_plan_single(m: Seq<char>)
    ensures
        plan(seq![m]) == plan_one(m),
{
    let e = Seq::<Seq<char>>::empty();
    assert(seq![m].drop_last() =~= e);
    assert(plan(e) =~= e);
    assert(plan(seq![m]) =~= plan_one(m));
}

proof fn lemma_default_column_names_one_field(kk: int, l: int)
    requires
        0 <= kk < 7,
        0 <= l < 7,
    ensures
        contains(default_columns()[kk], default_fields()[l]) <==> kk == l,
{
    if kk == 0 && l == 0 {
        reveal_strlit("contract_address TEXT NOT NULL");
        reveal_strlit("contract_address");
        let s = "contract_address TEXT NOT NULL"@;
        let f = "contract_address"@;
        assert(s.subrange(0, f.len() as int) =~= f);
        assert(occurs_at(s, f, 0));
    } else if kk == 0 && l == 1 {
        reveal_strlit("contract_address TEXT NOT NULL");
        reveal_strlit("chain_id");
        let s = "contract_address TEXT NOT NULL"@;
        let f = "chain_id"@;
        assert forall|i: int| !occurs_at(s, f, i) by {
            if occurs_at(s, f, i) {
                assert(s.subrange(i, i + f.len())[0] == f[0]);
                assert(s.subrange(i, i + f.len())[1] == f[1]);
                assert(s.subrange(i, i + f.len())[2] == f[2]);
                assert(s.subrange(i, i + f.len())[3] == f[3]);
                assert(s.subrange(i, i + f.len())[4] == f[4]);
                assert(s.subrange(i, i + f.len())[5] == f[5]);
                assert(s.subrange(i, i + f.len())[6] == f[6]);
                assert(s.subrange(i, i + f.len())[7] == f[7]);
            }
        }
    } else if kk == 0 && l == 2 {
        reveal_strlit("contract_address TEXT NOT NULL");
        reveal_strlit("block_hash");
        let s = "contract_address TEXT NOT NULL"@;
        let f = "block_hash"@;
        assert forall|i: int| !occurs_at(s, f, i) by {
            if occurs_at(s, f, i) {
                assert(s.subrange(i, i + f.len())[0] == f[0]);
                assert(s.subrange(i, i + f.len())[1] == f[1]);
                assert(s.subrange(i, i + f.len())[2] == f[2]);
                assert(s.subrange(i, i + f.len())[3] == f[3]);
                assert(s.subrange(i, i + f.len())[4] == f[4]);
                assert(s.subrange(i, i + f.len())[5] == f[5]);
                assert(s.subrange(i, i + f.len())[6] == f[6]);
                assert(s.subrange(i, i + f.len())[7] == f[7]);
                assert(s.subrange(i, i + f.len())[8] == f[8]);
                assert(s.subrange(i, i + f.len())[9] == f[9]);
            }
        }
    } else if kk == 0 && l == 3 {
        reveal_strlit("contract_address TEXT NOT NULL");
        reveal_strlit("block_number");
        let s = "contract_address TEXT NOT NULL"@;
        let f = "block_number"@;
        assert forall|i: int| !occurs_at(s, f, i) by {
            if occurs_at(s, f, i) {
                assert(s.subrange(i, i + f.len())[0] == f[0]);
                assert(s.subrange(i, i + f.len())[1] == f[1]);
                assert(s.subrange(i, i + f.len())[2] == f[2]);
                assert(s.subrange(i, i + f.len())[3] == f[3]);
                assert(s.subrange(i, i + f.len())[4] == f[4]);
                assert(s.subrange(i, i + f.len())[5] == f[5]);
                assert(s.subrange(i, i + f.len())[6] == f[6]);
                assert(s.subrange(i, i + f.len())[7] == f[7]);
                assert(s.subrange(i, i + f.len())[8] == f[8]);
                assert(s.subrange(i, i + f.len())[9] == f[9]);
                assert(s.subrange(i, i + f.len())[10] == f[10]);
                assert(s.subrange(i, i + f.len())[11] == f[11]);
            }
        }
    } else if kk == 0 && l == 4 {
        reveal_strlit("contract_address TEXT NOT NULL");
        reveal_strlit("transaction_hash");
        let s = "contract_address TEXT NOT NULL"@;
        let f = "transaction_hash"@;
        assert forall|i: int| !occurs_at(s, f, i) by {
            if occurs_at(s, f, i) {
                assert(s.subrange(i, i + f.len())[0] == f[0]);
                assert(s.subrange(i, i + f.len())[1] == f[1]);
                assert(s.subrange(i, i + f.len())[2] == f[2]);
                assert(s.subrange(i, i + f.len())[3] == f[3]);
                assert(s.subrange(i, i + f.len())[4] == f[4]);
                assert(s.subrange(i, i + f.len())[5] == f[5]);
                assert(s.subrange(i, i + f.len())[6] == f[6]);
                assert(s.subrange(i, i + f.len())[7] == f[7]);
                assert(s.subrange(i, i + f.len())[8] == f[8]);
                assert(s.subrange(i, i + f.len())[9] == f[9]);
                assert(s.subrange(i, i + f.len())[10] == f[10]);
                assert(s.subrange(i, i + f.len())[11] == f[11]);
                assert(s.subrange(i, i + f.len())[12] == f[12]);
            }
        }
    } else if kk == 0 && l == 5 {
        reveal_strlit("contract_address TEXT NOT NULL");
        reveal_strlit("transaction_index");
        let s = "contract_address TEXT NOT NULL"@;
        let f = "transaction_index"@;
        assert forall|i: int| !occurs_at(s, f, i) by {
            if occurs_at(s, f, i) {
                assert(s.subrange(i, i + f.len())[0] == f[0]);
                assert(s.subrange(i, i + f.len())[1] == f[1]);
                assert(s.subrange(i, i + f.len())[2] == f[2]);
                assert(s.subrange(i, i + f.len())[3] == f[3]);
                assert(s.subrange(i, i + f.len())[4] == f[4]);
                assert(s.subrange(i, i + f.len())[5] == f[5]);
                assert(s.subrange(i, i + f.len())[6] == f[6]);
                assert(s.subrange(i, i + f.len())[7] == f[7]);
                assert(s.subrange(i, i + f.len())[8] == f[8]);
                assert(s.subrange(i, i + f.len())[9] == f[9]);
                assert(s.subrange(i, i + f.len())[10] == f[10]);
                assert(s.subrange(i, i + f.len())[11] == f[11]);
                assert(s.subrange(i, i + f.len())[12] == f[12]);
            }
        }
    } else if kk == 0 && l == 6 {
        reveal_strlit("contract_address TEXT NOT NULL");
        reveal_strlit("log_index");
        let s = "contract_address TEXT NOT NULL"@;
        let f = "log_index"@;
        assert forall|i: int| !occurs_at(s, f, i) by {
            if occurs_at(s, f, i) {
                assert(s.subrange(i, i + f.len())[0] == f[0]);
                assert(s.subrange(i, i + f.len())[1] == f[1]);
                assert(s.subrange(i, i + f.len())[2] == f[2]);
                assert(s.subrange(i, i + f.len())[3] == f[3]);
                assert(s.subrange(i, i + f.len())[4] == f[4]);
                assert(s.subrange(i, i + f.len())[5] == f[5]);
                assert(s.subrange(i, i + f.len())[6] == f[6]);
                assert(s.subrange(i, i + f.len())[7] == f[7]);
                assert(s.subrange(i, i + f.len())[8] == f[8]);
            }
        }
    } else if kk == 1 && l == 0 {
        reveal_strlit("chain_id INTEGER NOT NULL");
        reveal_strlit("contract_address");
        let s = "chain_id INTEGER NOT NULL"@;
        let f = "contract_address"@;
        assert forall|i: int| !occurs_at(s, f, i) by {
            if occurs_at(s, f, i) {
                assert(s.subrange(i, i + f.len())[0] == f[0]);
                assert(s.subrange(i, i + f.len())[1] == f[1]);
                assert(s.subrange(i, i + f.len())[2] == f[2]);
                assert(s.subrange(i, i + f.len())[3] == f[3]);
                assert(s.subrange(i, i + f.len())[4] == f[4]);
                assert(s.subrange(i, i + f.len())[5] == f[5]);
                assert(s.subrange(i, i + f.len())[6] == f[6]);
                assert(s.subrange(i, i + f.len())[7] == f[7]);
                assert(s.subrange(i, i + f.len())[8] == f[8]);
                assert(s.subrange(i, i + f.len())[9] == f[9]);
                assert(s.subrange(i, i + f.len())[10] == f[10]);
                assert(s.subrange(i, i + f.len())[11] == f[11]);
                assert(s.subrange(i, i + f.len())[12] == f[12]);
            }
        }
    } else if kk == 1 && l == 1 {
        reveal_strlit("chain_id INTEGER NOT NULL");
        reveal_strlit("chain_id");
        let s = "chain_id INTEGER NOT NULL"@;
        let f = "chain_id"@;
        assert(s.subrange(0, f.len() as int) =~= f);
        assert(occurs_at(s, f, 0));
    } else if kk == 1 && l == 2 {
        reveal_strlit("chain_id INTEGER NOT NULL");
        reveal_strlit("block_hash");
        let s = "chain_id INTEGER NOT NULL"@;
        let f = "block_hash"@;
        assert forall|i: int| !occurs_at(s, f, i) by {
            if occurs_at(s, f, i) {
                assert(s.subrange(i, i + f.len())[0] == f[0]);
                assert(s.subrange(i, i + f.len())[1] == f[1]);
                assert(s.subrange(i, i + f.len())[2] == f[2]);
                assert(s.subrange(i, i + f.len())[3] == f[3]);
                assert(s.subrange(i, i + f.len())[4] == f[4]);
                assert(s.subrange(i, i + f.len())[5] == f[5]);
                assert(s.subrange(i, i + f.len())[6] == f[6]);
                assert(s.subrange(i, i + f.len())[7] == f[7]);
                assert(s.subrange(i, i + f.len())[8] == f[8]);
                assert(s.subrange(i, i + f.len())[9] == f[9]);
            }
        }
    } else if kk == 1 && l == 3 {
        reveal_strlit("chain_id INTEGER NOT NULL");
        reveal_strlit("block_number");
        let s = "chain_id INTEGER NOT NULL"@;
        let f = "block_number"@;
        assert forall|i: int| !occurs_at(s, f, i) by {
            if occurs_at(s, f, i) {
                assert(s.subrange(i, i + f.len())[0] == f[0]);
                assert(s.subrange(i, i + f.len())[1] == f[1]);
                assert(s.subrange(i, i + f.len())[2] == f[2]);
                assert(s.subrange(i, i + f.len())[3] == f[3]);
                assert(s.subrange(i, i + f.len())[4] == f[4]);
                assert(s.subrange(i, i + f.len())[5] == f[5]);
                assert(s.subrange(i, i + f.len())[6] == f[6]);
                assert(s.subrange(i, i + f.len())[7] == f[7]);
                assert(s.subrange(i, i + f.len())[8] == f[8]);
                assert(s.subrange(i, i + f.len())[9] == f[9]);
                assert(s.subrange(i, i + f.len())[10] == f[10]);
                assert(s.subrange(i, i + f.len())[11] == f[11]);
            }
        }
    } else if kk == 1 && l == 4 {
        reveal_strlit("chain_id INTEGER NOT NULL");
        reveal_strlit("transaction_hash");
        let s = "chain_id INTEGER NOT NULL"@;
        let f = "transaction_hash"@;
        assert forall|i: int| !occurs_at(s, f, i) by {
            if occurs_at(s, f, i) {
                assert(s.subrange(i, i + f.len())[0] == f[0]);
                assert(s.subrange(i, i + f.len())[1] == f[1]);
                assert(s.subrange(i, i + f.len())[2] == f[2]);
                assert(s.subrange(i, i + f.len())[3] == f[3]);
                assert(s.subrange(i, i + f.len())[4] == f[4]);
                assert(s.subrange(i, i + f.len())[5] == f[5]);
                assert(s.subrange(i, i + f.len())[6] == f[6]);
                assert(s.subrange(i, i + f.len())[7] == f[7]);
                assert(s.subrange(i, i + f.len())[8] == f[8]);
                assert(s.subrange(i, i + f.len())[9] == f[9]);
                assert(s.subrange(i, i + f.len())[10] == f[10]);
                assert(s.subrange(i, i + f.len())[11] == f[11]);
                assert(s.subrange(i, i + f.len())[12] == f[12]);
            }
        }
    } else if kk == 1 && l == 5 {
        reveal_strlit("chain_id INTEGER NOT NULL");
        reveal_strlit("transaction_index");
        let s = "chain_id INTEGER NOT NULL"@;
        let f = "transaction_index"@;
        assert forall|i: int| !occurs_at(s, f, i) by {
            if occurs_at(s, f, i) {
                assert(s.subrange(i, i + f.len())[0] == f[0]);
                assert(s.subrange(i, i + f.len())[1] == f[1]);
                assert(s.subrange(i, i + f.len())[2] == f[2]);
                assert(s.subrange(i, i + f.len())[3] == f[3]);
                assert(s.subrange(i, i + f.len())[4] == f[4]);
                assert(s.subrange(i, i + f.len())[5] == f[5]);
                assert(s.subrange(i, i + f.len())[6] == f[6]);
                assert(s.subrange(i, i + f.len())[7] == f[7]);
                assert(s.subrange(i, i + f.len())[8] == f[8]);
                assert(s.subrange(i, i + f.len())[9] == f[9]);
                assert(s.subrange(i, i + f.len())[10] == f[10]);
                assert(s.subrange(i, i + f.len())[11] == f[11]);
                assert(s.subrange(i, i + f.len())[12] == f[12]);
            }
        }
    } else if kk == 1 && l == 6 {
        reveal_strlit("chain_id INTEGER NOT NULL");
        reveal_strlit("log_index");
        let s = "chain_id INTEGER NOT NULL"@;
        let f = "log_index"@;
        assert forall|i: int| !occurs_at(s, f, i) by {
            if occurs_at(s, f, i) {
                assert(s.subrange(i, i + f.len())[0] == f[0]);
                assert(s.subrange(i, i + f.len())[1] == f[1]);
                assert(s.subrange(i, i + f.len())[2] == f[2]);
                assert(s.subrange(i, i + f.len())[3] == f[3]);
                assert(s.subrange(i, i + f.len())[4] == f[4]);
                assert(s.subrange(i, i + f.len())[5] == f[5]);
                assert(s.subrange(i, i + f.len())[6] == f[6]);
                assert(s.subrange(i, i + f.len())[7] == f[7]);
                assert(s.subrange(i, i + f.len())[8] == f[8]);
            }
        }
    } else if kk == 2 && l == 0 {
        reveal_strlit("block_hash TEXT NOT NULL");
        reveal_strlit("contract_address");
        let s = "block_hash TEXT NOT NULL"@;
        let f = "contract_address"@;
        assert forall|i: int| !occurs_at(s, f, i) by {
            if occurs_at(s, f, i) {
                assert(s.subrange(i, i + f.len())[0] == f[0]);
                assert(s.subrange(i, i + f.len())[1] == f[1]);
                assert(s.subrange(i, i + f.len())[2] == f[2]);
                assert(s.subrange(i, i + f.len())[3] == f[3]);
                assert(s.subrange(i, i + f.len())[4] == f[4]);
                assert(s.subrange(i, i + f.len())[5] == f[5]);
                assert(s.subrange(i, i + f.len())[6] == f[6]);
                assert(s.subrange(i, i + f.len())[7] == f[7]);
                assert(s.subrange(i, i + f.len())[8] == f[8]);
                assert(s.subrange(i, i + f.len())[9] == f[9]);
                assert(s.subrange(i, i + f.len())[10] == f[10]);
                assert(s.subrange(i, i + f.len())[11] == f[11]);
                assert(s.subrange(i, i + f.len())[12] == f[12]);
            }
        }
    } else if kk == 2 && l == 1 {
        reveal_strlit("block_hash TEXT NOT NULL");
        reveal_strlit("chain_id");
        let s = "block_hash TEXT NOT NULL"@;
        let f = "chain_id"@;
        assert forall|i: int| !occurs_at(s, f, i) by {
            if occurs_at(s, f, i) {
                assert(s.subrange(i, i + f.len())[0] == f[0]);
                assert(s.subrange(i, i + f.len())[1] == f[1]);
                assert(s.subrange(i, i + f.len())[2] == f[2]);
                assert(s.subrange(i, i + f.len())[3] == f[3]);
                assert(s.subrange(i, i + f.len())[4] == f[4]);
                assert(s.subrange(i, i + f.len())[5] == f[5]);
                assert(s.subrange(i, i + f.len())[6] == f[6]);
                assert(s.subrange(i, i + f.len())[7] == f[7]);
            }
        }
    } else if kk == 2 && l == 2 {
        reveal_strlit("block_hash TEXT NOT NULL");
        reveal_strlit("block_hash");
        let s = "block_hash TEXT NOT NULL"@;
        let f = "block_hash"@;
        assert(s.subrange(0, f.len() as int) =~= f);
        assert(occurs_at(s, f, 0));
    } else if kk == 2 && l == 3 {
        reveal_strlit("block_hash TEXT NOT NULL");
        reveal_strlit("block_number");
        let s = "block_hash TEXT NOT NULL"@;
        let f = "block_number"@;
        assert forall|i: int| !occurs_at(s, f, i) by {
            if occurs_at(s, f, i) {
                assert(s.subrange(i, i + f.len())[0] == f[0]);
                assert(s.subrange(i, i + f.len())[1] == f[1]);
                assert(s.subrange(i, i + f.len())[2] == f[2]);
                assert(s.subrange(i, i + f.len())[3] == f[3]);
                assert(s.subrange(i, i + f.len())[4] == f[4]);
                assert(s.subrange(i, i + f.len())[5] == f[5]);
                assert(s.subrange(i, i + f.len())[6] == f[6]);
                assert(s.subrange(i, i + f.len())[7] == f[7]);
                assert(s.subrange(i, i + f.len())[8] == f[8]);
                assert(s.subrange(i, i + f.len())[9] == f[9]);
                assert(s.subrange(i, i + f.len())[10] == f[10]);
                assert(s.subrange(i, i + f.len())[11] == f[11]);
            }
        }
    } else if kk == 2 && l == 4 {
        reveal_strlit("block_hash TEXT NOT NULL");
        reveal_strlit("transaction_hash");
        let s = "block_hash TEXT NOT NULL"@;
        let f = "transaction_hash"@;
        assert forall|i: int| !occurs_at(s, f, i) by {
            if occurs_at(s, f, i) {
                assert(s.subrange(i, i + f.len())[0] == f[0]);
                assert(s.subrange(i, i + f.len())[1] == f[1]);
                assert(s.subrange(i, i + f.len())[2] == f[2]);
                assert(s.subrange(i, i + f.len())[3] == f[3]);
                assert(s.subrange(i, i + f.len())[4] == f[4]);
                assert(s.subrange(i, i + f.len())[5] == f[5]);
                assert(s.subrange(i, i + f.len())[6] == f[6]);
                assert(s.subrange(i, i + f.len())[7] == f[7]);
                assert(s.subrange(i, i + f.len())[8] == f[8]);
                assert(s.subrange(i, i + f.len())[9] == f[9]);
                assert(s.subrange(i, i + f.len())[10] == f[10]);
                assert(s.subrange(i, i + f.len())[11] == f[11]);
                assert(s.subrange(i, i + f.len())[12] == f[12]);
            }
        }
    } else if kk == 2 && l == 5 {
        reveal_strlit("block_hash TEXT NOT NULL");
        reveal_strlit("transaction_index");
        let s = "block_hash TEXT NOT NULL"@;
        let f = "transaction_index"@;
        assert forall|i: int| !occurs_at(s, f, i) by {
            if occurs_at(s, f, i) {
                assert(s.subrange(i, i + f.len())[0] == f[0]);
                assert(s.subrange(i, i + f.len())[1] == f[1]);
                assert(s.subrange(i, i + f.len())[2] == f[2]);
                assert(s.subrange(i, i + f.len())[3] == f[3]);
                assert(s.subrange(i, i + f.len())[4] == f[4]);
                assert(s.subrange(i, i + f.len())[5] == f[5]);
                assert(s.subrange(i, i + f.len())[6] == f[6]);
                assert(s.subrange(i, i + f.len())[7] == f[7]);
                assert(s.subrange(i, i + f.len())[8] == f[8]);
                assert(s.subrange(i, i + f.len())[9] == f[9]);
                assert(s.subrange(i, i + f.len())[10] == f[10]);
                assert(s.subrange(i, i + f.len())[11] == f[11]);
                assert(s.subrange(i, i + f.len())[12] == f[12]);
            }
        }
    } else if kk == 2 && l == 6 {
        reveal_strlit("block_hash TEXT NOT NULL");
        reveal_strlit("log_index");
        let s = "block_hash TEXT NOT NULL"@;
        let f = "log_index"@;
        assert forall|i: int| !occurs_at(s, f, i) by {
            if occurs_at(s, f, i) {
                assert(s.subrange(i, i + f.len())[0] == f[0]);
                assert(s.subrange(i, i + f.len())[1] == f[1]);
                assert(s.subrange(i, i + f.len())[2] == f[2]);
                assert(s.subrange(i, i + f.len())[3] == f[3]);
                assert(s.subrange(i, i + f.len())[4] == f[4]);
                assert(s.subrange(i, i + f.len())[5] == f[5]);
                assert(s.subrange(i, i + f.len())[6] == f[6]);
                assert(s.subrange(i, i + f.len())[7] == f[7]);
                assert(s.subrange(i, i + f.len())[8] == f[8]);
            }
        }
    } else if kk == 3 && l == 0 {
        reveal_strlit("block_number BIGINT NOT NULL");
        reveal_strlit("contract_address");
        let s = "block_number BIGINT NOT NULL"@;
        let f = "contract_address"@;
        assert forall|i: int| !occurs_at(s, f, i) by {
            if occurs_at(s, f, i) {
                assert(s.subrange(i, i + f.len())[0] == f[0]);
                assert(s.subrange(i, i + f.len())[1] == f[1]);
                assert(s.subrange(i, i + f.len())[2] == f[2]);
                assert(s.subrange(i, i + f.len())[3] == f[3]);
                assert(s.subrange(i, i + f.len())[4] == f[4]);
                assert(s.subrange(i, i + f.len())[5] == f[5]);
                assert(s.subrange(i, i + f.len())[6] == f[6]);
                assert(s.subrange(i, i + f.len())[7] == f[7]);
                assert(s.subrange(i, i + f.len())[8] == f[8]);
                assert(s.subrange(i, i + f.len())[9] == f[9]);
                assert(s.subrange(i, i + f.len())[10] == f[10]);
                assert(s.subrange(i, i + f.len())[11] == f[11]);
                assert(s.subrange(i, i + f.len())[12] == f[12]);
            }
        }
    } else if kk == 3 && l == 1 {
        reveal_strlit("block_number BIGINT NOT NULL");
        reveal_strlit("chain_id");
        let s = "block_number BIGINT NOT NULL"@;
        let f = "chain_id"@;
        assert forall|i: int| !occurs_at(s, f, i) by {
            if occurs_at(s, f, i) {
                assert(s.subrange(i, i + f.len())[0] == f[0]);
                assert(s.subrange(i, i + f.len())[1] == f[1]);
                assert(s.subrange(i, i + f.len())[2] == f[2]);
                assert(s.subrange(i, i + f.len())[3] == f[3]);
                assert(s.subrange(i, i + f.len())[4] == f[4]);
                assert(s.subrange(i, i + f.len())[5] == f[5]);
                assert(s.subrange(i, i + f.len())[6] == f[6]);
                assert(s.subrange(i, i + f.len())[7] == f[7]);
            }
        }
    } else if kk == 3 && l == 2 {
        reveal_strlit("block_number BIGINT NOT NULL");
        reveal_strlit("block_hash");
        let s = "block_number BIGINT NOT NULL"@;
        let f = "block_hash"@;
        assert forall|i: int| !occurs_at(s, f, i) by {
            if occurs_at(s, f, i) {
                assert(s.subrange(i, i + f.len())[0] == f[0]);
                assert(s.subrange(i, i + f.len())[1] == f[1]);
                assert(s.subrange(i, i + f.len())[2] == f[2]);
                assert(s.subrange(i, i + f.len())[3] == f[3]);
                assert(s.subrange(i, i + f.len())[4] == f[4]);
                assert(s.subrange(i, i + f.len())[5] == f[5]);
                assert(s.subrange(i, i + f.len())[6] == f[6]);
                assert(s.subrange(i, i + f.len())[7] == f[7]);
                assert(s.subrange(i, i + f.len())[8] == f[8]);
                assert(s.subrange(i, i + f.len())[9] == f[9]);
            }
        }
    } else if kk == 3 && l == 3 {
        reveal_strlit("block_number BIGINT NOT NULL");
        reveal_strlit("block_number");
        let s = "block_number BIGINT NOT NULL"@;
        let f = "block_number"@;
        assert(s.subrange(0, f.len() as int) =~= f);
        assert(occurs_at(s, f, 0));
    } else if kk == 3 && l == 4 {
        reveal_strlit("block_number BIGINT NOT NULL");
        reveal_strlit("transaction_hash");
        let s = "block_number BIGINT NOT NULL"@;
        let f = "transaction_hash"@;
        assert forall|i: int| !occurs_at(s, f, i) by {
            if occurs_at(s, f, i) {
                assert(s.subrange(i, i + f.len())[0] == f[0]);
                assert(s.subrange(i, i + f.len())[1] == f[1]);
                assert(s.subrange(i, i + f.len())[2] == f[2]);
                assert(s.subrange(i, i + f.len())[3] == f[3]);
                assert(s.subrange(i, i + f.len())[4] == f[4]);
                assert(s.subrange(i, i + f.len())[5] == f[5]);
                assert(s.subrange(i, i + f.len())[6] == f[6]);
                assert(s.subrange(i, i + f.len())[7] == f[7]);
                assert(s.subrange(i, i + f.len())[8] == f[8]);
                assert(s.subrange(i, i + f.len())[9] == f[9]);
                assert(s.subrange(i, i + f.len())[10] == f[10]);
                assert(s.subrange(i, i + f.len())[11] == f[11]);
                assert(s.subrange(i, i + f.len())[12] == f[12]);
            }
        }
    } else if kk == 3 && l == 5 {
        reveal_strlit("block_number BIGINT NOT NULL");
        reveal_strlit("transaction_index");
        let s = "block_number BIGINT NOT NULL"@;
        let f = "transaction_index"@;
        assert forall|i: int| !occurs_at(s, f, i) by {
            if occurs_at(s, f, i) {
                assert(s.subrange(i, i + f.len())[0] == f[0]);
                assert(s.subrange(i, i + f.len())[1] == f[1]);
                assert(s.subrange(i, i + f.len())[2] == f[2]);
                assert(s.subrange(i, i + f.len())[3] == f[3]);
                assert(s.subrange(i, i + f.len())[4] == f[4]);
                assert(s.subrange(i, i + f.len())[5] == f[5]);
                assert(s.subrange(i, i + f.len())[6] == f[6]);
                assert(s.subrange(i, i + f.len())[7] == f[7]);
                assert(s.subrange(i, i + f.len())[8] == f[8]);
                assert(s.subrange(i, i + f.len())[9] == f[9]);
                assert(s.subrange(i, i + f.len())[10] == f[10]);
                assert(s.subrange(i, i + f.len())[11] == f[11]);
                assert(s.subrange(i, i + f.len())[12] == f[12]);
            }
        }
    } else if kk == 3 && l == 6 {
        reveal_strlit("block_number BIGINT NOT NULL");
        reveal_strlit("log_index");
        let s = "block_number BIGINT NOT NULL"@;
        let f = "log_index"@;
        assert forall|i: int| !occurs_at(s, f, i) by {
            if occurs_at(s, f, i) {
                assert(s.subrange(i, i + f.len())[0] == f[0]);
                assert(s.subrange(i, i + f.len())[1] == f[1]);
                assert(s.subrange(i, i + f.len())[2] == f[2]);
                assert(s.subrange(i, i + f.len())[3] == f[3]);
                assert(s.subrange(i, i + f.len())[4] == f[4]);
                assert(s.subrange(i, i + f.len())[5] == f[5]);
                assert(s.subrange(i, i + f.len())[6] == f[6]);
                assert(s.subrange(i, i + f.len())[7] == f[7]);
                assert(s.subrange(i, i + f.len())[8] == f[8]);
            }
        }
    } else if kk == 4 && l == 0 {
        reveal_strlit("transaction_hash TEXT NOT NULL");
        reveal_strlit("contract_address");
        let s = "transaction_hash TEXT NOT NULL"@;
        let f = "contract_address"@;
        assert forall|i: int| !occurs_at(s, f, i) by {
            if occurs_at(s, f, i) {
                assert(s.subrange(i, i + f.len())[0] == f[0]);
                assert(s.subrange(i, i + f.len())[1] == f[1]);
                assert(s.subrange(i, i + f.len())[2] == f[2]);
                assert(s.subrange(i, i + f.len())[3] == f[3]);
                assert(s.subrange(i, i + f.len())[4] == f[4]);
                assert(s.subrange(i, i + f.len())[5] == f[5]);
                assert(s.subrange(i, i + f.len())[6] == f[6]);
                assert(s.subrange(i, i + f.len())[7] == f[7]);
                assert(s.subrange(i, i + f.len())[8] == f[8]);
                assert(s.subrange(i, i + f.len())[9] == f[9]);
                assert(s.subrange(i, i + f.len())[10] == f[10]);
                assert(s.subrange(i, i + f.len())[11] == f[11]);
                assert(s.subrange(i, i + f.len())[12] == f[12]);
            }
        }
    } else if kk == 4 && l == 1 {
        reveal_strlit("transaction_hash TEXT NOT NULL");
        reveal_strlit("chain_id");
        let s = "transaction_hash TEXT NOT NULL"@;
        let f = "chain_id"@;
        assert forall|i: int| !occurs_at(s, f, i) by {
            if occurs_at(s, f, i) {
                assert(s.subrange(i, i + f.len())[0] == f[0]);
                assert(s.subrange(i, i + f.len())[1] == f[1]);
                assert(s.subrange(i, i + f.len())[2] == f[2]);
                assert(s.subrange(i, i + f.len())[3] == f[3]);
                assert(s.subrange(i, i + f.len())[4] == f[4]);
                assert(s.subrange(i, i + f.len())[5] == f[5]);
                assert(s.subrange(i, i + f.len())[6] == f[6]);
                assert(s.subrange(i, i + f.len())[7] == f[7]);
            }
        }
    } else if kk == 4 && l == 2 {
        reveal_strlit("transaction_hash TEXT NOT NULL");
        reveal_strlit("block_hash");
        let s = "transaction_hash TEXT NOT NULL"@;
        let f = "block_hash"@;
        assert forall|i: int| !occurs_at(s, f, i) by {
            if occurs_at(s, f, i) {
                assert(s.subrange(i, i + f.len())[0] == f[0]);
                assert(s.subrange(i, i + f.len())[1] == f[1]);
                assert(s.subrange(i, i + f.len())[2] == f[2]);
                assert(s.subrange(i, i + f.len())[3] == f[3]);
                assert(s.subrange(i, i + f.len())[4] == f[4]);
                assert(s.subrange(i, i + f.len())[5] == f[5]);
                assert(s.subrange(i, i + f.len())[6] == f[6]);
                assert(s.subrange(i, i + f.len())[7] == f[7]);
                assert(s.subrange(i, i + f.len())[8] == f[8]);
                assert(s.subrange(i, i + f.len())[9] == f[9]);
            }
        }
    } else if kk == 4 && l == 3 {
        reveal_strlit("transaction_hash TEXT NOT NULL");
        reveal_strlit("block_number");
        let s = "transaction_hash TEXT NOT NULL"@;
        let f = "block_number"@;
        assert forall|i: int| !occurs_at(s, f, i) by {
            if occurs_at(s, f, i) {
                assert(s.subrange(i, i + f.len())[0] == f[0]);
                assert(s.subrange(i, i + f.len())[1] == f[1]);
                assert(s.subrange(i, i + f.len())[2] == f[2]);
                assert(s.subrange(i, i + f.len())[3] == f[3]);
                assert(s.subrange(i, i + f.len())[4] == f[4]);
                assert(s.subrange(i, i + f.len())[5] == f[5]);
                assert(s.subrange(i, i + f.len())[6] == f[6]);
                assert(s.subrange(i, i + f.len())[7] == f[7]);
                assert(s.subrange(i, i + f.len())[8] == f[8]);
                assert(s.subrange(i, i + f.len())[9] == f[9]);
                assert(s.subrange(i, i + f.len())[10] == f[10]);
                assert(s.subrange(i, i + f.len())[11] == f[11]);
            }
        }
    } else if kk == 4 && l == 4 {
        reveal_strlit("transaction_hash TEXT NOT NULL");
        reveal_strlit("transaction_hash");
        let s = "transaction_hash TEXT NOT NULL"@;
        let f = "transaction_hash"@;
        assert(s.subrange(0, f.len() as int) =~= f);
        assert(occurs_at(s, f, 0));
    } else if kk == 4 && l == 5 {
        reveal_strlit("transaction_hash TEXT NOT NULL");
        reveal_strlit("transaction_index");
        let s = "transaction_hash TEXT NOT NULL"@;
        let f = "transaction_index"@;
        assert forall|i: int| !occurs_at(s, f, i) by {
            if occurs_at(s, f, i) {
                assert(s.subrange(i, i + f.len())[0] == f[0]);
                assert(s.subrange(i, i + f.len())[1] == f[1]);
                assert(s.subrange(i, i + f.len())[2] == f[2]);
                assert(s.subrange(i, i + f.len())[3] == f[3]);
                assert(s.subrange(i, i + f.len())[4] == f[4]);
                assert(s.subrange(i, i + f.len())[5] == f[5]);
                assert(s.subrange(i, i + f.len())[6] == f[6]);
                assert(s.subrange(i, i + f.len())[7] == f[7]);
                assert(s.subrange(i, i + f.len())[8] == f[8]);
                assert(s.subrange(i, i + f.len())[9] == f[9]);
                assert(s.subrange(i, i + f.len())[10] == f[10]);
                assert(s.subrange(i, i + f.len())[11] == f[11]);
                assert(s.subrange(i, i + f.len())[12] == f[12]);
            }
        }
    } else if kk == 4 && l == 6 {
        reveal_strlit("transaction_hash TEXT NOT NULL");
        reveal_strlit("log_index");
        let s = "transaction_hash TEXT NOT NULL"@;
        let f = "log_index"@;
        assert forall|i: int| !occurs_at(s, f, i) by {
            if occurs_at(s, f, i) {
                assert(s.subrange(i, i + f.len())[0] == f[0]);
                assert(s.subrange(i, i + f.len())[1] == f[1]);
                assert(s.subrange(i, i + f.len())[2] == f[2]);
                assert(s.subrange(i, i + f.len())[3] == f[3]);
                assert(s.subrange(i, i + f.len())[4] == f[4]);
                assert(s.subrange(i, i + f.len())[5] == f[5]);
                assert(s.subrange(i, i + f.len())[6] == f[6]);
                assert(s.subrange(i, i + f.len())[7] == f[7]);
                assert(s.subrange(i, i + f.len())[8] == f[8]);
            }
        }
    } else if kk == 5 && l == 0 {
        reveal_strlit("transaction_index BIGINT NOT NULL");
        reveal_strlit("contract_address");
        let s = "transaction_index BIGINT NOT NULL"@;
        let f = "contract_address"@;
        assert forall|i: int| !occurs_at(s, f, i) by {
            if occurs_at(s, f, i) {
                assert(s.subrange(i, i + f.len())[0] == f[0]);
                assert(s.subrange(i, i + f.len())[1] == f[1]);
                assert(s.subrange(i, i + f.len())[2] == f[2]);
                assert(s.subrange(i, i + f.len())[3] == f[3]);
                assert(s.subrange(i, i + f.len())[4] == f[4]);
                assert(s.subrange(i, i + f.len())[5] == f[5]);
                assert(s.subrange(i, i + f.len())[6] == f[6]);
                assert(s.subrange(i, i + f.len())[7] == f[7]);
                assert(s.subrange(i, i + f.len())[8] == f[8]);
                assert(s.subrange(i, i + f.len())[9] == f[9]);
                assert(s.subrange(i, i + f.len())[10] == f[10]);
                assert(s.subrange(i, i + f.len())[11] == f[11]);
                assert(s.subrange(i, i + f.len())[12] == f[12]);
            }
        }
    } else if kk == 5 && l == 1 {
        reveal_strlit("transaction_index BIGINT NOT NULL");
        reveal_strlit("chain_id");
        let s = "transaction_index BIGINT NOT NULL"@;
        let f = "chain_id"@;
        assert forall|i: int| !occurs_at(s, f, i) by {
            if occurs_at(s, f, i) {
                assert(s.subrange(i, i + f.len())[0] == f[0]);
                assert(s.subrange(i, i + f.len())[1] == f[1]);
                assert(s.subrange(i, i + f.len())[2] == f[2]);
                assert(s.subrange(i, i + f.len())[3] == f[3]);
                assert(s.subrange(i, i + f.len())[4] == f[4]);
                assert(s.subrange(i, i + f.len())[5] == f[5]);
                assert(s.subrange(i, i + f.len())[6] == f[6]);
                assert(s.subrange(i, i + f.len())[7] == f[7]);
            }
        }
    } else if kk == 5 && l == 2 {
        reveal_strlit("transaction_index BIGINT NOT NULL");
        reveal_strlit("block_hash");
        let s = "transaction_index BIGINT NOT NULL"@;
        let f = "block_hash"@;
        assert forall|i: int| !occurs_at(s, f, i) by {
            if occurs_at(s, f, i) {
                assert(s.subrange(i, i + f.len())[0] == f[0]);
                assert(s.subrange(i, i + f.len())[1] == f[1]);
                assert(s.subrange(i, i + f.len())[2] == f[2]);
                assert(s.subrange(i, i + f.len())[3] == f[3]);
                assert(s.subrange(i, i + f.len())[4] == f[4]);
                assert(s.subrange(i, i + f.len())[5] == f[5]);
                assert(s.subrange(i, i + f.len())[6] == f[6]);
                assert(s.subrange(i, i + f.len())[7] == f[7]);
                assert(s.subrange(i, i + f.len())[8] == f[8]);
                assert(s.subrange(i, i + f.len())[9] == f[9]);
            }
        }
    } else if kk == 5 && l == 3 {
        reveal_strlit("transaction_index BIGINT NOT NULL");
        reveal_strlit("block_number");
        let s = "transaction_index BIGINT NOT NULL"@;
        let f = "block_number"@;
        assert forall|i: int| !occurs_at(s, f, i) by {
            if occurs_at(s, f, i) {
                assert(s.subrange(i, i + f.len())[0] == f[0]);
                assert(s.subrange(i, i + f.len())[1] == f[1]);
                assert(s.subrange(i, i + f.len())[2] == f[2]);
                assert(s.subrange(i, i + f.len())[3] == f[3]);
                assert(s.subrange(i, i + f.len())[4] == f[4]);
                assert(s.subrange(i, i + f.len())[5] == f[5]);
                assert(s.subrange(i, i + f.len())[6] == f[6]);
                assert(s.subrange(i, i + f.len())[7] == f[7]);
                assert(s.subrange(i, i + f.len())[8] == f[8]);
                assert(s.subrange(i, i + f.len())[9] == f[9]);
                assert(s.subrange(i, i + f.len())[10] == f[10]);
                assert(s.subrange(i, i + f.len())[11] == f[11]);
            }
        }
    } else if kk == 5 && l == 4 {
        reveal_strlit("transaction_index BIGINT NOT NULL");
        reveal_strlit("transaction_hash");
        let s = "transaction_index BIGINT NOT NULL"@;
        let f = "transaction_hash"@;
        assert forall|i: int| !occurs_at(s, f, i) by {
            if occurs_at(s, f, i) {
                assert(s.subrange(i, i + f.len())[0] == f[0]);
                assert(s.subrange(i, i + f.len())[1] == f[1]);
                assert(s.subrange(i, i + f.len())[2] == f[2]);
                assert(s.subrange(i, i + f.len())[3] == f[3]);
                assert(s.subrange(i, i + f.len())[4] == f[4]);
                assert(s.subrange(i, i + f.len())[5] == f[5]);
                assert(s.subrange(i, i + f.len())[6] == f[6]);
                assert(s.subrange(i, i + f.len())[7] == f[7]);
                assert(s.subrange(i, i + f.len())[8] == f[8]);
                assert(s.subrange(i, i + f.len())[9] == f[9]);
                assert(s.subrange(i, i + f.len())[10] == f[10]);
                assert(s.subrange(i, i + f.len())[11] == f[11]);
                assert(s.subrange(i, i + f.len())[12] == f[12]);
            }
        }
    } else if kk == 5 && l == 5 {
        reveal_strlit("transaction_index BIGINT NOT NULL");
        reveal_strlit("transaction_index");
        let s = "transaction_index BIGINT NOT NULL"@;
        let f = "transaction_index"@;
        assert(s.subrange(0, f.len() as int) =~= f);
        assert(occurs_at(s, f, 0));
    } else if kk == 5 && l == 6 {
        reveal_strlit("transaction_index BIGINT NOT NULL");
        reveal_strlit("log_index");
        let s = "transaction_index BIGINT NOT NULL"@;
        let f = "log_index"@;
        assert forall|i: int| !occurs_at(s, f, i) by {
            if occurs_at(s, f, i) {
                assert(s.subrange(i, i + f.len())[0] == f[0]);
                assert(s.subrange(i, i + f.len())[1] == f[1]);
                assert(s.subrange(i, i + f.len())[2] == f[2]);
                assert(s.subrange(i, i + f.len())[3] == f[3]);
                assert(s.subrange(i, i + f.len())[4] == f[4]);
                assert(s.subrange(i, i + f.len())[5] == f[5]);
                assert(s.subrange(i, i + f.len())[6] == f[6]);
                assert(s.subrange(i, i + f.len())[7] == f[7]);
                assert(s.subrange(i, i + f.len())[8] == f[8]);
            }
        }
    } else if kk == 6 && l == 0 {
        reveal_strlit("log_index BIGINT NOT NULL");
        reveal_strlit("contract_address");
        let s = "log_index BIGINT NOT NULL"@;
        let f = "contract_address"@;
        assert forall|i: int| !occurs_at(s, f, i) by {
            if occurs_at(s, f, i) {
                assert(s.subrange(i, i + f.len())[0] == f[0]);
                assert(s.subrange(i, i + f.len())[1] == f[1]);
                assert(s.subrange(i, i + f.len())[2] == f[2]);
                assert(s.subrange(i, i + f.len())[3] == f[3]);
                assert(s.subrange(i, i + f.len())[4] == f[4]);
                assert(s.subrange(i, i + f.len())[5] == f[5]);
                assert(s.subrange(i, i + f.len())[6] == f[6]);
                assert(s.subrange(i, i + f.len())[7] == f[7]);
                assert(s.subrange(i, i + f.len())[8] == f[8]);
                assert(s.subrange(i, i + f.len())[9] == f[9]);
                assert(s.subrange(i, i + f.len())[10] == f[10]);
                assert(s.subrange(i, i + f.len())[11] == f[11]);
                assert(s.subrange(i, i + f.len())[12] == f[12]);
            }
        }
    } else if kk == 6 && l == 1 {
        reveal_strlit("log_index BIGINT NOT NULL");
        reveal_strlit("chain_id");
        let s = "log_index BIGINT NOT NULL"@;
        let f = "chain_id"@;
        assert forall|i: int| !occurs_at(s, f, i) by {
            if occurs_at(s, f, i) {
                assert(s.subrange(i, i + f.len())[0] == f[0]);
                assert(s.subrange(i, i + f.len())[1] == f[1]);
                assert(s.subrange(i, i + f.len())[2] == f[2]);
                assert(s.subrange(i, i + f.len())[3] == f[3]);
                assert(s.subrange(i, i + f.len())[4] == f[4]);
                assert(s.subrange(i, i + f.len())[5] == f[5]);
                assert(s.subrange(i, i + f.len())[6] == f[6]);
                assert(s.subrange(i, i + f.len())[7] == f[7]);
            }
        }
    } else if kk == 6 && l == 2 {
        reveal_strlit("log_index BIGINT NOT NULL");
        reveal_strlit("block_hash");
        let s = "log_index BIGINT NOT NULL"@;
        let f = "block_hash"@;
        assert forall|i: int| !occurs_at(s, f, i) by {
            if occurs_at(s, f, i) {
                assert(s.subrange(i, i + f.len())[0] == f[0]);
                assert(s.subrange(i, i + f.len())[1] == f[1]);
                assert(s.subrange(i, i + f.len())[2] == f[2]);
                assert(s.subrange(i, i + f.len())[3] == f[3]);
                assert(s.subrange(i, i + f.len())[4] == f[4]);
                assert(s.subrange(i, i + f.len())[5] == f[5]);
                assert(s.subrange(i, i + f.len())[6] == f[6]);
                assert(s.subrange(i, i + f.len())[7] == f[7]);
                assert(s.subrange(i, i + f.len())[8] == f[8]);
                assert(s.subrange(i, i + f.len())[9] == f[9]);
            }
        }
    } else if kk == 6 && l == 3 {
        reveal_strlit("log_index BIGINT NOT NULL");
        reveal_strlit("block_number");
        let s = "log_index BIGINT NOT NULL"@;
        let f = "block_number"@;
        assert forall|i: int| !occurs_at(s, f, i) by {
            if occurs_at(s, f, i) {
                assert(s.subrange(i, i + f.len())[0] == f[0]);
                assert(s.subrange(i, i + f.len())[1] == f[1]);
                assert(s.subrange(i, i + f.len())[2] == f[2]);
                assert(s.subrange(i, i + f.len())[3] == f[3]);
                assert(s.subrange(i, i + f.len())[4] == f[4]);
                assert(s.subrange(i, i + f.len())[5] == f[5]);
                assert(s.subrange(i, i + f.len())[6] == f[6]);
                assert(s.subrange(i, i + f.len())[7] == f[7]);
                assert(s.subrange(i, i + f.len())[8] == f[8]);
                assert(s.subrange(i, i + f.len())[9] == f[9]);
                assert(s.subrange(i, i + f.len())[10] == f[10]);
                assert(s.subrange(i, i + f.len())[11] == f[11]);
            }
        }
    } else if kk == 6 && l == 4 {
        reveal_strlit("log_index BIGINT NOT NULL");
        reveal_strlit("transaction_hash");
        let s = "log_index BIGINT NOT NULL"@;
        let f = "transaction_hash"@;
        assert forall|i: int| !occurs_at(s, f, i) by {
            if occurs_at(s, f, i) {
                assert(s.subrange(i, i + f.len())[0] == f[0]);
                assert(s.subrange(i, i + f.len())[1] == f[1]);
                assert(s.subrange(i, i + f.len())[2] == f[2]);
                assert(s.subrange(i, i + f.len())[3] == f[3]);
                assert(s.subrange(i, i + f.len())[4] == f[4]);
                assert(s.subrange(i, i + f.len())[5] == f[5]);
                assert(s.subrange(i, i + f.len())[6] == f[6]);
                assert(s.subrange(i, i + f.len())[7] == f[7]);
                assert(s.subrange(i, i + f.len())[8] == f[8]);
                assert(s.subrange(i, i + f.len())[9] == f[9]);
                assert(s.subrange(i, i + f.len())[10] == f[10]);
                assert(s.subrange(i, i + f.len())[11] == f[11]);
                assert(s.subrange(i, i + f.len())[12] == f[12]);
            }
        }
    } else if kk == 6 && l == 5 {
        reveal_strlit("log_index BIGINT NOT NULL");
        reveal_strlit("transaction_index");
        let s = "log_index BIGINT NOT NULL"@;
        let f = "transaction_index"@;
        assert forall|i: int| !occurs_at(s, f, i) by {
            if occurs_at(s, f, i) {
                assert(s.subrange(i, i + f.len())[0] == f[0]);
                assert(s.subrange(i, i + f.len())[1] == f[1]);
                assert(s.subrange(i, i + f.len())[2] == f[2]);
                assert(s.subrange(i, i + f.len())[3] == f[3]);
                assert(s.subrange(i, i + f.len())[4] == f[4]);
                assert(s.subrange(i, i + f.len())[5] == f[5]);
                assert(s.subrange(i, i + f.len())[6] == f[6]);
                assert(s.subrange(i, i + f.len())[7] == f[7]);
                assert(s.subrange(i, i + f.len())[8] == f[8]);
                assert(s.subrange(i, i + f.len())[9] == f[9]);
                assert(s.subrange(i, i + f.len())[10] == f[10]);
                assert(s.subrange(i, i + f.len())[11] == f[11]);
                assert(s.subrange(i, i + f.len())[12] == f[12]);
            }
        }
    } else if kk == 6 && l == 6 {
        reveal_strlit("log_index BIGINT NOT NULL");
        reveal_strlit("log_index");
        let s = "log_index BIGINT NOT NULL"@;
        let f = "log_index"@;
        assert(s.subrange(0, f.len() as int) =~= f);
        assert(occurs_at(s, f, 0));
    }
}

proof fn lemma_dedup_upto_members(cols: Seq<Seq<char>>, n: int, p: int)
    requires
        0 <= n <= cols.len(),
        0 <= p < dedup_upto(cols, n).len(),
    ensures
        exists|q: int|
            0 <= q < n && !repeats_earlier(cols, q) && #[trigger] cols[q] == dedup_upto(cols, n)[p]
                && forall|k: int|
                0 <= k < 7 && contains(cols[q], default_fields()[k]) ==> (forall|j: int|
                    0 <= j < q ==> !contains(#[trigger] cols[j], default_fields()[k])),
    decreases n,
{
    if n > 0 {
        let r = dedup_upto(cols, n - 1);
        if p < r.len() {
            lemma_dedup_upto_members(cols, n - 1, p);
            let q = choose|q: int|
                0 <= q < n - 1 && !repeats_earlier(cols, q) && #[trigger] cols[q] == dedup_upto(
                    cols,
                    n - 1,
                )[p] && forall|k: int|
                    0 <= k < 7 && contains(cols[q], default_fields()[k]) ==> (forall|j: int|
                        0 <= j < q ==> !contains(#[trigger] cols[j], default_fields()[k]));
            assert(dedup_upto(cols, n)[p] == r[p]);
        } else {
            let q = n - 1;
            assert forall|k: int|
                0 <= k < 7 && contains(cols[q], default_fields()[k]) implies (forall|j: int|
                0 <= j < q ==> !contains(#[trigger] cols[j], default_fields()[k])) by {
                if !seen_before(cols, q, k) {
                } else {
                    assert(repeats_earlier(cols, q));
                }
            }
        }
    }
}

proof fn lemma_dedup_upto_order(cols: Seq<Seq<char>>, n: int, pa: int, pb: int)
    requires
        0 <= n <= cols.len(),
        0 <= pa < pb < dedup_upto(cols, n).len(),
    ensures
        exists|q1: int, q2: int|
            0 <= q1 < q2 < n && #[trigger] cols[q1] == dedup_upto(cols, n)[pa] && #[trigger] cols[q2]
                == dedup_upto(cols, n)[pb] && !repeats_earlier(cols, q2),
    decreases n,
{
    if n > 0 {
        let r = dedup_upto(cols, n - 1);
        if pb < r.len() {
            lemma_dedup_upto_order(cols, n - 1, pa, pb);
            let (q1, q2) = choose|q1: int, q2: int|
                0 <= q1 < q2 < n - 1 && #[trigger] cols[q1] == r[pa] && #[trigger] cols[q2] == r[pb]
                    && !repeats_earlier(cols, q2);
            assert(cols[q1] == dedup_upto(cols, n)[pa] && cols[q2] == dedup_upto(cols, n)[pb]);
        } else {
            lemma_dedup_upto_members(cols, n - 1, pa);
            let q1 = choose|q1: int|
                0 <= q1 < n - 1 && !repeats_earlier(cols, q1) && #[trigger] cols[q1] == r[pa]
                    && forall|k: int|
                    0 <= k < 7 && contains(cols[q1], default_fields()[k]) ==> (forall|j: int|
                        0 <= j < q1 ==> !contains(#[trigger] cols[j], default_fields()[k]));
            assert(cols[q1] == dedup_upto(cols, n)[pa]);
            assert(cols[n - 1] == dedup_upto(cols, n)[pb]);
        }
    }
}

/// After duplicate removal, no two columns name the same default field.
pub proof fn law_dedup_names_each_default_field_at_most_once(
    cols: Seq<Seq<char>>,
    k: int,
    pa: int,
    pb: int,
)
    requires
        0 <= k < 7,
        0 <= pa < pb < dedup(cols).len(),
    ensures
        !(contains(dedup(cols)[pa], default_fields()[k]) && contains(
            dedup(cols)[pb],
            default_fields()[k],
        )),
{
    let n = cols.len() as int;
    lemma_dedup_upto_order(cols, n, pa, pb);
    let (q1, q2) = choose|q1: int, q2: int|
        0 <= q1 < q2 < n && #[trigger] cols[q1] == dedup_upto(cols, n)[pa] && #[trigger] cols[q2]
            == dedup_upto(cols, n)[pb] && !repeats_earlier(cols, q2);
    if contains(cols[q1], default_fields()[k]) && contains(cols[q2], default_fields()[k]) {
        assert(seen_before(cols, q2, k));
        assert(repeats_earlier(cols, q2));
    }
}

proof fn lemma_dedup_complete(cols: Seq<Seq<char>>, n: int, q: int)
    requires
        0 <= q < n <= cols.len(),
        !repeats_earlier(cols, q),
    ensures
        exists|p: int| 0 <= p < dedup_upto(cols, n).len() && #[trigger] dedup_upto(cols, n)[p] == cols[q],
    decreases n,
{
    if q < n - 1 {
        lemma_dedup_complete(cols, n - 1, q);
        let p = choose|p: int|
            0 <= p < dedup_upto(cols, n - 1).len() && #[trigger] dedup_upto(cols, n - 1)[p] == cols[q];
        assert(dedup_upto(cols, n)[p] == cols[q]);
    } else {
        let p = dedup_upto(cols, n - 1).len() as int;
        assert(dedup_upto(cols, n)[p] == cols[q]);
    }
}

proof fn lemma_first_naming(cols: Seq<Seq<char>>, k: int, n: int)
    requires
        0 <= n <= cols.len(),
        exists|j: int| 0 <= j < n && contains(#[trigger] cols[j], default_fields()[k]),
    ensures
        exists|j: int|
            0 <= j < n && contains(#[trigger] cols[j], default_fields()[k]) && !seen_before(cols, j, k),
    decreases n,
{
    if exists|j: int| 0 <= j < n - 1 && contains(#[trigger] cols[j], default_fields()[k]) {
        lemma_first_naming(cols, k, n - 1);
        let j = choose|j: int|
            0 <= j < n - 1 && contains(#[trigger] cols[j], default_fields()[k]) && !seen_before(cols, j, k);
        assert(contains(cols[j], default_fields()[k]) && !seen_before(cols, j, k));
    } else {
        let j = n - 1;
        assert(contains(cols[j], default_fields()[k]));
        assert(!seen_before(cols, j, k));
    }
}

/// A character that can stand in a column name.
pub open spec fn name_char(c: char) -> bool {
    ('a' <= c && c <= 'z') || c == '_'
}

/// `f` occurs at exactly one position of `s`.
pub open spec fn occurs_once(s: Seq<char>, f: Seq<char>) -> bool {
    exists|p: int| occurs_at(s, f, p) && forall|q: int| occurs_at(s, f, q) ==> q == p
}

/// `s` names at most one default field, at most once.
pub open spec fn names_default_at_most_once(s: Seq<char>) -> bool {
    forall|k1: int, k2: int, i1: int, i2: int|
        0 <= k1 < 7 && 0 <= k2 < 7 && #[trigger] occurs_at(s, default_fields()[k1], i1)
            && #[trigger] occurs_at(s, default_fields()[k2], i2) ==> k1 == k2 && i1 == i2
}

proof fn lemma_field_chars(k: int)
    requires
        0 <= k < 7,
    ensures
        default_fields()[k].len() > 0,
        forall|t: int| 0 <= t < default_fields()[k].len() ==> name_char(#[trigger] default_fields()[k][t]),
{
    if k == 0 {
        reveal_strlit("contract_address");
        let f = "contract_address"@;
        assert(f.len() > 0);
        assert forall|t: int| 0 <= t < f.len() implies name_char(#[trigger] f[t]) by {}
    } else if k == 1 {
        reveal_strlit("chain_id");
        let f = "chain_id"@;
        assert(f.len() > 0);
        assert forall|t: int| 0 <= t < f.len() implies name_char(#[trigger] f[t]) by {}
    } else if k == 2 {
        reveal_strlit("block_hash");
        let f = "block_hash"@;
        assert(f.len() > 0);
        assert forall|t: int| 0 <= t < f.len() implies name_char(#[trigger] f[t]) by {}
    } else if k == 3 {
        reveal_strlit("block_number");
        let f = "block_number"@;
        assert(f.len() > 0);
        assert forall|t: int| 0 <= t < f.len() implies name_char(#[trigger] f[t]) by {}
    } else if k == 4 {
        reveal_strlit("transaction_hash");
        let f = "transaction_hash"@;
        assert(f.len() > 0);
        assert forall|t: int| 0 <= t < f.len() implies name_char(#[trigger] f[t]) by {}
    } else if k == 5 {
        reveal_strlit("transaction_index");
        let f = "transaction_index"@;
        assert(f.len() > 0);
        assert forall|t: int| 0 <= t < f.len() implies name_char(#[trigger] f[t]) by {}
    } else if k == 6 {
        reveal_strlit("log_index");
        let f = "log_index"@;
        assert(f.len() > 0);
        assert forall|t: int| 0 <= t < f.len() implies name_char(#[trigger] f[t]) by {}
    }
}

proof fn lemma_default_column_once(kk: int)
    requires
        0 <= kk < 7,
    ensures
        names_default_at_most_once(default_columns()[kk]),
        occurs_at(default_columns()[kk], default_fields()[kk], 0),
{
    if kk == 0 {
        reveal_strlit("contract_address TEXT NOT NULL");
        reveal_strlit("contract_address");
        let s = "contract_address TEXT NOT NULL"@;
        let f = "contract_address"@;
        assert(s.subrange(0, f.len() as int) =~= f);
        assert(default_fields()[kk] == f && default_columns()[kk] == s);
        assert forall|i: int| occurs_at(s, f, i) implies i == 0 by {
            if i != 0 {
                assert(s.subrange(i, i + f.len())[0] == f[0]);
                assert(s.subrange(i, i + f.len())[1] == f[1]);
                assert(s.subrange(i, i + f.len())[2] == f[2]);
                assert(s.subrange(i, i + f.len())[3] == f[3]);
                assert(s.subrange(i, i + f.len())[4] == f[4]);
                assert(s.subrange(i, i + f.len())[5] == f[5]);
                assert(s.subrange(i, i + f.len())[6] == f[6]);
                assert(s.subrange(i, i + f.len())[7] == f[7]);
                assert(s.subrange(i, i + f.len())[8] == f[8]);
                assert(s.subrange(i, i + f.len())[9] == f[9]);
                assert(s.subrange(i, i + f.len())[10] == f[10]);
                assert(s.subrange(i, i + f.len())[11] == f[11]);
                assert(s.subrange(i, i + f.len())[12] == f[12]);
            }
        }
    } else if kk == 1 {
        reveal_strlit("chain_id INTEGER NOT NULL");
        reveal_strlit("chain_id");
        let s = "chain_id INTEGER NOT NULL"@;
        let f = "chain_id"@;
        assert(s.subrange(0, f.len() as int) =~= f);
        assert(default_fields()[kk] == f && default_columns()[kk] == s);
        assert forall|i: int| occurs_at(s, f, i) implies i == 0 by {
            if i != 0 {
                assert(s.subrange(i, i + f.len())[0] == f[0]);
                assert(s.subrange(i, i + f.len())[1] == f[1]);
                assert(s.subrange(i, i + f.len())[2] == f[2]);
                assert(s.subrange(i, i + f.len())[3] == f[3]);
                assert(s.subrange(i, i + f.len())[4] == f[4]);
                assert(s.subrange(i, i + f.len())[5] == f[5]);
                assert(s.subrange(i, i + f.len())[6] == f[6]);
                assert(s.subrange(i, i + f.len())[7] == f[7]);
            }
        }
    } else if kk == 2 {
        reveal_strlit("block_hash TEXT NOT NULL");
        reveal_strlit("block_hash");
        let s = "block_hash TEXT NOT NULL"@;
        let f = "block_hash"@;
        assert(s.subrange(0, f.len() as int) =~= f);
        assert(default_fields()[kk] == f && default_columns()[kk] == s);
        assert forall|i: int| occurs_at(s, f, i) implies i == 0 by {
            if i != 0 {
                assert(s.subrange(i, i + f.len())[0] == f[0]);
                assert(s.subrange(i, i + f.len())[1] == f[1]);
                assert(s.subrange(i, i + f.len())[2] == f[2]);
                assert(s.subrange(i, i + f.len())[3] == f[3]);
                assert(s.subrange(i, i + f.len())[4] == f[4]);
                assert(s.subrange(i, i + f.len())[5] == f[5]);
                assert(s.subrange(i, i + f.len())[6] == f[6]);
                assert(s.subrange(i, i + f.len())[7] == f[7]);
                assert(s.subrange(i, i + f.len())[8] == f[8]);
                assert(s.subrange(i, i + f.len())[9] == f[9]);
            }
        }
    } else if kk == 3 {
        reveal_strlit("block_number BIGINT NOT NULL");
        reveal_strlit("block_number");
        let s = "block_number BIGINT NOT NULL"@;
        let f = "block_number"@;
        assert(s.subrange(0, f.len() as int) =~= f);
        assert(default_fields()[kk] == f && default_columns()[kk] == s);
        assert forall|i: int| occurs_at(s, f, i) implies i == 0 by {
            if i != 0 {
                assert(s.subrange(i, i + f.len())[0] == f[0]);
                assert(s.subrange(i, i + f.len())[1] == f[1]);
                assert(s.subrange(i, i + f.len())[2] == f[2]);
                assert(s.subrange(i, i + f.len())[3] == f[3]);
                assert(s.subrange(i, i + f.len())[4] == f[4]);
                assert(s.subrange(i, i + f.len())[5] == f[5]);
                assert(s.subrange(i, i + f.len())[6] == f[6]);
                assert(s.subrange(i, i + f.len())[7] == f[7]);
                assert(s.subrange(i, i + f.len())[8] == f[8]);
                assert(s.subrange(i, i + f.len())[9] == f[9]);
                assert(s.subrange(i, i + f.len())[10] == f[10]);
                assert(s.subrange(i, i + f.len())[11] == f[11]);
            }
        }
    } else if kk == 4 {
        reveal_strlit("transaction_hash TEXT NOT NULL");
        reveal_strlit("transaction_hash");
        let s = "transaction_hash TEXT NOT NULL"@;
        let f = "transaction_hash"@;
        assert(s.subrange(0, f.len() as int) =~= f);
        assert(default_fields()[kk] == f && default_columns()[kk] == s);
        assert forall|i: int| occurs_at(s, f, i) implies i == 0 by {
            if i != 0 {
                assert(s.subrange(i, i + f.len())[0] == f[0]);
                assert(s.subrange(i, i + f.len())[1] == f[1]);
                assert(s.subrange(i, i + f.len())[2] == f[2]);
                assert(s.subrange(i, i + f.len())[3] == f[3]);
                assert(s.subrange(i, i + f.len())[4] == f[4]);
                assert(s.subrange(i, i + f.len())[5] == f[5]);
                assert(s.subrange(i, i + f.len())[6] == f[6]);
                assert(s.subrange(i, i + f.len())[7] == f[7]);
                assert(s.subrange(i, i + f.len())[8] == f[8]);
                assert(s.subrange(i, i + f.len())[9] == f[9]);
                assert(s.subrange(i, i + f.len())[10] == f[10]);
                assert(s.subrange(i, i + f.len())[11] == f[11]);
                assert(s.subrange(i, i + f.len())[12] == f[12]);
            }
        }
    } else if kk == 5 {
        reveal_strlit("transaction_index BIGINT NOT NULL");
        reveal_strlit("transaction_index");
        let s = "transaction_index BIGINT NOT NULL"@;
        let f = "transaction_index"@;
        assert(s.subrange(0, f.len() as int) =~= f);
        assert(default_fields()[kk] == f && default_columns()[kk] == s);
        assert forall|i: int| occurs_at(s, f, i) implies i == 0 by {
            if i != 0 {
                assert(s.subrange(i, i + f.len())[0] == f[0]);
                assert(s.subrange(i, i + f.len())[1] == f[1]);
                assert(s.subrange(i, i + f.len())[2] == f[2]);
                assert(s.subrange(i, i + f.len())[3] == f[3]);
                assert(s.subrange(i, i + f.len())[4] == f[4]);
                assert(s.subrange(i, i + f.len())[5] == f[5]);
                assert(s.subrange(i, i + f.len())[6] == f[6]);
                assert(s.subrange(i, i + f.len())[7] == f[7]);
                assert(s.subrange(i, i + f.len())[8] == f[8]);
                assert(s.subrange(i, i + f.len())[9] == f[9]);
                assert(s.subrange(i, i + f.len())[10] == f[10]);
                assert(s.subrange(i, i + f.len())[11] == f[11]);
                assert(s.subrange(i, i + f.len())[12] == f[12]);
            }
        }
    } else if kk == 6 {
        reveal_strlit("log_index BIGINT NOT NULL");
        reveal_strlit("log_index");
        let s = "log_index BIGINT NOT NULL"@;
        let f = "log_index"@;
        assert(s.subrange(0, f.len() as int) =~= f);
        assert(default_fields()[kk] == f && default_columns()[kk] == s);
        assert forall|i: int| occurs_at(s, f, i) implies i == 0 by {
            if i != 0 {
                assert(s.subrange(i, i + f.len())[0] == f[0]);
                assert(s.subrange(i, i + f.len())[1] == f[1]);
                assert(s.subrange(i, i + f.len())[2] == f[2]);
                assert(s.subrange(i, i + f.len())[3] == f[3]);
                assert(s.subrange(i, i + f.len())[4] == f[4]);
                assert(s.subrange(i, i + f.len())[5] == f[5]);
                assert(s.subrange(i, i + f.len())[6] == f[6]);
                assert(s.subrange(i, i + f.len())[7] == f[7]);
                assert(s.subrange(i, i + f.len())[8] == f[8]);
            }
        }
    }
    let s = default_columns()[kk];
    assert forall|k1: int, k2: int, i1: int, i2: int|
        0 <= k1 < 7 && 0 <= k2 < 7 && #[trigger] occurs_at(s, default_fields()[k1], i1)
            && #[trigger] occurs_at(s, default_fields()[k2], i2) implies k1 == k2 && i1 == i2 by {
        lemma_default_column_names_one_field(kk, k1);
        lemma_default_column_names_one_field(kk, k2);
    }
}

proof fn lemma_occ_concat(a: Seq<char>, b: Seq<char>, f: Seq<char>)
    requires
        f.len() > 0,
        forall|t: int| 0 <= t < f.len() ==> name_char(#[trigger] f[t]),
        (a.len() > 0 && !name_char(a.last())) || (b.len() > 0 && !name_char(b[0])),
    ensures
        forall|i: int|
            #[trigger] occurs_at(a + b, f, i) <==> (occurs_at(a, f, i) || occurs_at(b, f, i - a.len())),
{
    let s = a + b;
    assert forall|i: int|
        #[trigger] occurs_at(s, f, i) <==> (occurs_at(a, f, i) || occurs_at(b, f, i - a.len())) by {
        if 0 <= i && i + f.len() <= s.len() {
            if i + f.len() <= a.len() {
                assert(s.subrange(i, i + f.len()) =~= a.subrange(i, i + f.len()));
            } else if i >= a.len() {
                assert(s.subrange(i, i + f.len()) =~= b.subrange(i - a.len(), i - a.len() + f.len()));
            } else if occurs_at(s, f, i) {
                let x = a.len() - 1 - i;
                assert(s.subrange(i, i + f.len())[x] == f[x]);
                assert(s.subrange(i, i + f.len())[x + 1] == f[x + 1]);
                assert(s[a.len() - 1] == a.last());
                assert(s[a.len() as int] == b[0]);
            }
        }
    }
}

proof fn lemma_once_concat(a: Seq<char>, b: Seq<char>, f: Seq<char>)
    requires
        f.len() > 0,
        forall|t: int| 0 <= t < f.len() ==> name_char(#[trigger] f[t]),
        (a.len() > 0 && !name_char(a.last())) || (b.len() > 0 && !name_char(b[0])),
    ensures
        !contains(a, f) && !contains(b, f) ==> !contains(a + b, f),
        occurs_once(a, f) && !contains(b, f) ==> occurs_once(a + b, f),
        !contains(a, f) && occurs_once(b, f) ==> occurs_once(a + b, f),
{
    lemma_occ_concat(a, b, f);
    if !contains(a, f) && !contains(b, f) {
        assert forall|i: int| !occurs_at(a + b, f, i) by {
            if occurs_at(a + b, f, i) {
                if !occurs_at(a, f, i) {
                    assert(occurs_at(b, f, i - a.len()));
                }
            }
        }
    }
    if occurs_once(a, f) && !contains(b, f) {
        let p = choose|p: int| occurs_at(a, f, p) && forall|q: int| occurs_at(a, f, q) ==> q == p;
        assert(occurs_at(a + b, f, p));
        assert forall|q: int| occurs_at(a + b, f, q) implies q == p by {
            if !occurs_at(a, f, q) {
                assert(occurs_at(b, f, q - a.len()));
            }
        }
    }
    if !contains(a, f) && occurs_once(b, f) {
        let p = choose|p: int| occurs_at(b, f, p) && forall|q: int| occurs_at(b, f, q) ==> q == p;
        assert(occurs_at(a + b, f, p + a.len()));
        assert forall|q: int| occurs_at(a + b, f, q) implies q == p + a.len() by {
            if occurs_at(a, f, q) {
                assert(contains(a, f));
            }
        }
    }
}

proof fn lemma_plain_never(s: Seq<char>, f: Seq<char>)
    requires
        f.len() > 0,
        name_char(f[0]),
        forall|i: int| 0 <= i < s.len() ==> !name_char(#[trigger] s[i]),
    ensures
        !contains(s, f),
{
    assert forall|i: int| !occurs_at(s, f, i) by {
        if occurs_at(s, f, i) {
            assert(s.subrange(i, i + f.len())[0] == f[0]);
        }
    }
}

proof fn lemma_join_sep_facts()
    ensures
        ", "@.len() == 2,
        ", "@[0] == ',',
        ", "@[1] == ' ',
{
    reveal_strlit(", ");
}

proof fn lemma_join_once(cs: Seq<Seq<char>>, f: Seq<char>, j: int)
    requires
        f.len() > 0,
        forall|t: int| 0 <= t < f.len() ==> name_char(#[trigger] f[t]),
        forall|i: int| 0 <= i < cs.len() && i != j ==> !contains(#[trigger] cs[i], f),
    ensures
        0 <= j < cs.len() && occurs_once(cs[j], f) ==> occurs_once(join(cs, ", "@), f),
        !(0 <= j < cs.len()) ==> !contains(join(cs, ", "@), f),
    decreases cs.len(),
{
    let sep = ", "@;
    lemma_join_sep_facts();
    lemma_plain_never(sep, f);
    if cs.len() == 0 {
        assert(join(cs, sep).len() == 0);
    } else if cs.len() == 1 {
        assert(join(cs, sep) == cs[0]);
    } else {
        let init = cs.drop_last();
        lemma_join_once(init, f, j);
        let x = join(init, sep);
        lemma_once_concat(x, sep, f);
        assert((x + sep).last() == ' ');
        lemma_once_concat(x + sep, cs.last(), f);
        assert(join(cs, sep) == x + sep + cs.last());
        if j == cs.len() - 1 {
            assert(!(0 <= j < init.len()));
        }
    }
}

proof fn lemma_tokens_first_naming_kept(cols: Seq<Seq<char>>, k: int)
    requires
        0 <= k < 7,
        exists|j: int| 0 <= j < cols.len() && contains(#[trigger] cols[j], default_fields()[k]),
        forall|j: int, k1: int, k2: int|
            0 <= j < cols.len() && 0 <= k1 < 7 && 0 <= k2 < 7 && #[trigger] contains(cols[j], default_fields()[k1])
                && #[trigger] contains(cols[j], default_fields()[k2]) ==> k1 == k2,
    ensures
        exists|p: int|
            0 <= p < dedup(cols).len() && contains(#[trigger] dedup(cols)[p], default_fields()[k])
                && forall|q: int|
                0 <= q < dedup(cols).len() && contains(#[trigger] dedup(cols)[q], default_fields()[k]) ==> q == p,
{
    let n = cols.len() as int;
    lemma_first_naming(cols, k, n);
    let j = choose|j: int|
        0 <= j < n && contains(#[trigger] cols[j], default_fields()[k]) && !seen_before(cols, j, k);
    if repeats_earlier(cols, j) {
        let k2 = choose|k2: int|
            0 <= k2 < 7 && #[trigger] seen_before(cols, j, k2) && contains(cols[j], default_fields()[k2]);
        assert(k2 == k);
    }
    lemma_dedup_complete(cols, n, j);
    let d = dedup(cols);
    let p = choose|p: int| 0 <= p < dedup_upto(cols, n).len() && #[trigger] dedup_upto(cols, n)[p] == cols[j];
    assert forall|q: int| 0 <= q < d.len() && contains(#[trigger] d[q], default_fields()[k]) implies q == p by {
        if q < p {
            law_dedup_names_each_default_field_at_most_once(cols, k, q, p);
        } else if q > p {
            law_dedup_names_each_default_field_at_most_once(cols, k, p, q);
        }
    }
    assert(contains(d[p], default_fields()[k]));
}

/// A planned view-table statement names each default field at exactly one
/// position, table name included, provided the table name and each user column
/// name at most one default field, at most once.
pub proof fn law_view_migration_names_each_default_field_once(m: Seq<char>, k: int)
    requires
        0 <= k < 7,
        names_default_at_most_once(table_name(m)),
        forall|j: int|
            0 <= j < user_columns(m).len() ==> names_default_at_most_once(#[trigger] user_columns(m)[j]),
    ensures
        occurs_once(view_migration(m), default_fields()[k]),
{
    let f = default_fields()[k];
    let name = table_name(m);
    let u = user_columns(m);
    let d = default_columns();
    let tokens = seq![name] + (u + d);
    let n = tokens.len() as int;
    let dt = dedup(tokens);
    let vc = view_columns(m);
    assert(vc == dt.drop_first());
    lemma_field_chars(k);
    // Every token names at most one default field, at most once.
    assert forall|j: int| 0 <= j < n implies names_default_at_most_once(#[trigger] tokens[j]) by {
        if j == 0 {
        } else if j < 1 + u.len() {
            assert(tokens[j] == u[j - 1]);
        } else {
            assert(tokens[j] == d[j - 1 - u.len()]);
            lemma_default_column_once(j - 1 - u.len());
        }
    }
    assert forall|j: int, k1: int, k2: int|
        0 <= j < n && 0 <= k1 < 7 && 0 <= k2 < 7 && #[trigger] contains(tokens[j], default_fields()[k1])
            && #[trigger] contains(tokens[j], default_fields()[k2]) implies k1 == k2 by {
        let i1 = choose|i1: int| occurs_at(tokens[j], default_fields()[k1], i1);
        let i2 = choose|i2: int| occurs_at(tokens[j], default_fields()[k2], i2);
        assert(names_default_at_most_once(tokens[j]));
    }
    lemma_default_column_once(k);
    assert(tokens[1 + u.len() + k] == d[k]);
    assert(contains(tokens[1 + u.len() + k], f));
    lemma_tokens_first_naming_kept(tokens, k);
    let p = choose|p: int|
        0 <= p < dt.len() && contains(#[trigger] dt[p], f) && forall|q: int|
            0 <= q < dt.len() && contains(#[trigger] dt[q], f) ==> q == p;
    // A kept token that names the field names it once.
    assert forall|x: int| 0 <= x < dt.len() && contains(#[trigger] dt[x], f) implies occurs_once(dt[x], f) by {
        lemma_dedup_upto_members(tokens, n, x);
        let q = choose|q: int|
            0 <= q < n && !repeats_earlier(tokens, q) && #[trigger] tokens[q] == dedup_upto(tokens, n)[x]
                && forall|kk: int|
                0 <= kk < 7 && contains(tokens[q], default_fields()[kk]) ==> (forall|j: int|
                    0 <= j < q ==> !contains(#[trigger] tokens[j], default_fields()[kk]));
        assert(names_default_at_most_once(tokens[q]));
        let i = choose|i: int| occurs_at(dt[x], f, i);
        assert forall|i2: int| occurs_at(dt[x], f, i2) implies i2 == i by {}
    }
    lemma_dedup_nonempty(tokens, n);
    assert(dt[0] == name);
    let body = join(vc, ", "@);
    if p == 0 {
        assert forall|i: int| 0 <= i < vc.len() && i != -1 implies !contains(#[trigger] vc[i], f) by {
            assert(vc[i] == dt[i + 1]);
        }
        lemma_join_once(vc, f, -1);
    } else {
        assert forall|i: int| 0 <= i < vc.len() && i != p - 1 implies !contains(#[trigger] vc[i], f) by {
            assert(vc[i] == dt[i + 1]);
        }
        assert(vc[p - 1] == dt[p]);
        lemma_join_once(vc, f, p - 1);
        assert(!contains(name, f));
    }
    // The statement around the name and the column list adds no occurrence.
    reveal_strlit("CREATE TABLE IF NOT EXISTS");
    reveal_strlit(" ");
    reveal_strlit(" (");
    reveal_strlit(")");
    let c = create_kw();
    assert forall|i: int| 0 <= i < c.len() implies !name_char(#[trigger] c[i]) by {}
    lemma_plain_never(c, f);
    lemma_plain_never(" "@, f);
    lemma_plain_never(" ("@, f);
    lemma_plain_never(")"@, f);
    let s1 = c + " "@;
    lemma_once_concat(c, " "@, f);
    let s2 = s1 + name;
    assert(s1.last() == ' ');
    lemma_once_concat(s1, name, f);
    let s3 = s2 + " ("@;
    lemma_once_concat(s2, " ("@, f);
    let s4 = s3 + body;
    assert(s3.last() == '(');
    lemma_once_concat(s3, body, f);
    lemma_once_concat(s4, ")"@, f);
    assert(view_migration(m) == s4 + ")"@);
}

} // verus!
