//! The state-migration planner: rewrites each user `CREATE TABLE IF NOT EXISTS`
//! into a view table, an append-only version table and a uniqueness index.
use vstd::prelude::*;
use crate::text::{
    chars_of, collapse_ws, collapse_ws_exec, contains, contains_exec, contains_nocase,
    contains_nocase_exec, occurs_at, first_word, first_word_exec, join, join_exec, push_all, push_str,
    split_on, split_on_exec, starts_with, string_of, views,
};

verus! {

/// The statement prefix that marks a state-table migration.
pub const CREATE_TABLE: &'static str = "CREATE TABLE IF NOT EXISTS";

/// Prefix of every state-version table name.
pub const STATE_VERSIONS_TABLE_PREFIX: &'static str = "chaindexing_state_versions_for_";

/// Why a list of user migrations was rejected.
#[derive(Debug, Clone, PartialEq, Eq)]
pub enum MigrationError {
    /// The migration at `index` declares a temporal column, which cannot be indexed.
    DisallowedColumnType { index: usize },
}

pub open spec fn create_kw() -> Seq<char> {
    CREATE_TABLE@
}

pub open spec fn versions_prefix() -> Seq<char> {
    STATE_VERSIONS_TABLE_PREFIX@
}

/// The seven columns every state table carries.
pub open spec fn default_fields() -> Seq<Seq<char>> {
    seq![
        "contract_address"@,
        "chain_id"@,
        "block_hash"@,
        "block_number"@,
        "transaction_hash"@,
        "transaction_index"@,
        "log_index"@,
    ]
}

/// The definitions of the seven default columns.
pub open spec fn default_columns() -> Seq<Seq<char>> {
    seq![
        "contract_address TEXT NOT NULL"@,
        "chain_id INTEGER NOT NULL"@,
        "block_hash TEXT NOT NULL"@,
        "block_number BIGINT NOT NULL"@,
        "transaction_hash TEXT NOT NULL"@,
        "transaction_index BIGINT NOT NULL"@,
        "log_index BIGINT NOT NULL"@,
    ]
}

/// The columns a version table has before the user's columns.
pub open spec fn version_head_columns() -> Seq<Seq<char>> {
    seq![
        "state_version_id BIGSERIAL PRIMARY KEY"@,
        "state_version_is_deleted BOOL NOT NULL DEFAULT false"@,
        "state_version_group_id UUID NOT NULL"@,
    ]
}

/// Column types that cannot take part in the uniqueness index.
pub open spec fn disallowed_keywords() -> Seq<Seq<char>> {
    seq![" timestamp"@, " timestampz"@, " date"@, " time"@]
}

pub open spec fn str_views(v: Seq<&str>) -> Seq<Seq<char>> {
    v.map_values(|s: &str| s@)
}

pub open spec fn string_views(v: Seq<String>) -> Seq<Seq<char>> {
    v.map_values(|s: String| s@)
}

pub open spec fn is_create(m: Seq<char>) -> bool {
    starts_with(m, create_kw())
}

/// A migration mentions a disallowed column type (letters compared without case).
pub open spec fn is_disallowed(m: Seq<char>) -> bool {
    exists|k: int| 0 <= k < 4 && contains_nocase(m, #[trigger] disallowed_keywords()[k])
}

/// Position of the first `c` in `s`, or its length.
pub open spec fn index_of(s: Seq<char>, c: char) -> int
    decreases s.len(),
{
    if s.len() == 0 {
        0
    } else if s[0] == c {
        0
    } else {
        1 + index_of(s.drop_first(), c)
    }
}

/// Position of the last `c` in `s`, or -1.
pub open spec fn last_index_of(s: Seq<char>, c: char) -> int
    decreases s.len(),
{
    if s.len() == 0 {
        -1
    } else if s.last() == c {
        s.len() - 1
    } else {
        last_index_of(s.drop_last(), c)
    }
}

pub open spec fn after_create(m: Seq<char>) -> Seq<char> {
    m.subrange(create_kw().len() as int, m.len() as int)
}

/// The table a `CREATE TABLE IF NOT EXISTS` names: what stands before the first `(`.
pub open spec fn table_name(m: Seq<char>) -> Seq<char> {
    let r = after_create(m);
    collapse_ws(r.subrange(0, index_of(r, '(')))
}

/// The text of the column list: after the first `(`, up to the last `)`.
pub open spec fn column_text(m: Seq<char>) -> Seq<char> {
    let r = after_create(m);
    let o = index_of(r, '(');
    if o < r.len() {
        let b = r.subrange(o + 1, r.len() as int);
        let c = last_index_of(b, ')');
        if c >= 0 {
            b.subrange(0, c)
        } else {
            b
        }
    } else {
        Seq::empty()
    }
}

/// The non-blank pieces, with whitespace collapsed.
pub open spec fn columns_of(parts: Seq<Seq<char>>) -> Seq<Seq<char>>
    decreases parts.len(),
{
    if parts.len() == 0 {
        Seq::empty()
    } else {
        let r = columns_of(parts.drop_last());
        let c = collapse_ws(parts.last());
        if c.len() > 0 {
            r.push(c)
        } else {
            r
        }
    }
}

/// The user's column definitions, split on commas.
pub open spec fn user_columns(m: Seq<char>) -> Seq<Seq<char>> {
    columns_of(split_on(column_text(m), ','))
}

/// Some column before `i` names default field `k`.
pub open spec fn seen_before(cols: Seq<Seq<char>>, i: int, k: int) -> bool {
    exists|j: int| 0 <= j < i && contains(#[trigger] cols[j], default_fields()[k])
}

/// Column `i` names a default field that an earlier column already names.
pub open spec fn repeats_earlier(cols: Seq<Seq<char>>, i: int) -> bool {
    exists|k: int|
        0 <= k < 7 && #[trigger] seen_before(cols, i, k) && contains(cols[i], default_fields()[k])
}

/// The first `n` columns without those that repeat a default field.
pub open spec fn dedup_upto(cols: Seq<Seq<char>>, n: int) -> Seq<Seq<char>>
    decreases n,
{
    if n <= 0 {
        Seq::empty()
    } else {
        let r = dedup_upto(cols, n - 1);
        if repeats_earlier(cols, n - 1) {
            r
        } else {
            r.push(cols[n - 1])
        }
    }
}

pub open spec fn dedup(cols: Seq<Seq<char>>) -> Seq<Seq<char>> {
    dedup_upto(cols, cols.len() as int)
}

/// The columns without those that repeat a default field named earlier, where
/// the table name `head` counts as named before every column.
pub open spec fn dedup_after(head: Seq<char>, cols: Seq<Seq<char>>) -> Seq<Seq<char>> {
    dedup(seq![head] + cols).drop_first()
}

pub open spec fn view_columns(m: Seq<char>) -> Seq<Seq<char>> {
    dedup_after(table_name(m), user_columns(m) + default_columns())
}

pub open spec fn version_columns(m: Seq<char>) -> Seq<Seq<char>> {
    dedup_after(versions_table(m), version_head_columns() + user_columns(m) + default_columns())
}

pub open spec fn versions_table(m: Seq<char>) -> Seq<char> {
    versions_prefix() + table_name(m)
}

pub open spec fn render_create(name: Seq<char>, cols: Seq<Seq<char>>) -> Seq<char> {
    create_kw() + " "@ + name + " ("@ + join(cols, ", "@) + ")"@
}

/// The column names of the first `n` columns, without `state_version_id`.
pub open spec fn index_fields_upto(cols: Seq<Seq<char>>, n: int) -> Seq<Seq<char>>
    decreases n,
{
    if n <= 0 {
        Seq::empty()
    } else {
        let r = index_fields_upto(cols, n - 1);
        let w = first_word(cols[n - 1]);
        if w == "state_version_id"@ {
            r
        } else {
            r.push(w)
        }
    }
}

pub open spec fn view_migration(m: Seq<char>) -> Seq<char> {
    render_create(table_name(m), view_columns(m))
}

pub open spec fn versions_migration(m: Seq<char>) -> Seq<char> {
    render_create(versions_table(m), version_columns(m))
}

pub open spec fn index_migration(m: Seq<char>) -> Seq<char> {
    let t = versions_table(m);
    let cols = version_columns(m);
    "CREATE UNIQUE INDEX IF NOT EXISTS unique_"@ + t + " ON "@ + t + "("@ + join(
        index_fields_upto(cols, cols.len() as int),
        ", "@,
    ) + ")"@
}

/// What one user migration becomes.
pub open spec fn plan_one(m: Seq<char>) -> Seq<Seq<char>> {
    if is_create(m) {
        seq![view_migration(m), versions_migration(m), index_migration(m)]
    } else {
        seq![m]
    }
}

/// What a list of user migrations becomes, in order.
pub open spec fn plan(ms: Seq<Seq<char>>) -> Seq<Seq<char>>
    decreases ms.len(),
{
    if ms.len() == 0 {
        Seq::empty()
    } else {
        plan(ms.drop_last()) + plan_one(ms.last())
    }
}

/// The number of state-table migrations in `ms`.
pub open spec fn count_creates(ms: Seq<Seq<char>>) -> nat
    decreases ms.len(),
{
    if ms.len() == 0 {
        0
    } else {
        count_creates(ms.drop_last()) + if is_create(ms.last()) {
            1nat
        } else {
            0nat
        }
    }
}

/// The tables that the user migrations create, in order.
pub open spec fn table_names(ms: Seq<Seq<char>>) -> Seq<Seq<char>>
    decreases ms.len(),
{
    if ms.len() == 0 {
        Seq::empty()
    } else if is_create(ms.last()) {
        table_names(ms.drop_last()).push(table_name(ms.last()))
    } else {
        table_names(ms.drop_last())
    }
}

pub open spec fn drop_table(name: Seq<char>) -> Seq<char> {
    "DROP TABLE IF EXISTS "@ + name
}

/// One `DROP TABLE IF EXISTS` per planned table, in planning order.
pub open spec fn reset_plan(ms: Seq<Seq<char>>) -> Seq<Seq<char>>
    decreases ms.len(),
{
    if ms.len() == 0 {
        Seq::empty()
    } else if is_create(ms.last()) {
        reset_plan(ms.drop_last()) + seq![
            drop_table(table_name(ms.last())),
            drop_table(versions_table(ms.last())),
        ]
    } else {
        reset_plan(ms.drop_last())
    }
}

fn default_fields_exec() -> (r: Vec<Vec<char>>)
    ensures
        views(r@) == default_fields(),
{
    let mut r: Vec<Vec<char>> = Vec::new();
    r.push(chars_of("contract_address"));
    r.push(chars_of("chain_id"));
    r.push(chars_of("block_hash"));
    r.push(chars_of("block_number"));
    r.push(chars_of("transaction_hash"));
    r.push(chars_of("transaction_index"));
    r.push(chars_of("log_index"));
    assert(views(r@) =~= default_fields());
    r
}

fn default_columns_exec() -> (r: Vec<Vec<char>>)
    ensures
        views(r@) == default_columns(),
{
    let mut r: Vec<Vec<char>> = Vec::new();
    r.push(chars_of("contract_address TEXT NOT NULL"));
    r.push(chars_of("chain_id INTEGER NOT NULL"));
    r.push(chars_of("block_hash TEXT NOT NULL"));
    r.push(chars_of("block_number BIGINT NOT NULL"));
    r.push(chars_of("transaction_hash TEXT NOT NULL"));
    r.push(chars_of("transaction_index BIGINT NOT NULL"));
    r.push(chars_of("log_index BIGINT NOT NULL"));
    assert(views(r@) =~= default_columns());
    r
}

fn version_head_columns_exec() -> (r: Vec<Vec<char>>)
    ensures
        views(r@) == version_head_columns(),
{
    let mut r: Vec<Vec<char>> = Vec::new();
    r.push(chars_of("state_version_id BIGSERIAL PRIMARY KEY"));
    r.push(chars_of("state_version_is_deleted BOOL NOT NULL DEFAULT false"));
    r.push(chars_of("state_version_group_id UUID NOT NULL"));
    assert(views(r@) =~= version_head_columns());
    r
}

/// Whether `m` mentions a disallowed column type.
pub fn is_disallowed_exec(m: &Vec<char>) -> (r: bool)
    ensures
        r == is_disallowed(m@),
{
    let k0 = chars_of(" timestamp");
    let k1 = chars_of(" timestampz");
    let k2 = chars_of(" date");
    let k3 = chars_of(" time");
    let r = contains_nocase_exec(m, &k0) || contains_nocase_exec(m, &k1) || contains_nocase_exec(
        m,
        &k2,
    ) || contains_nocase_exec(m, &k3);
    proof {
        let ks = disallowed_keywords();
        assert(ks[0] == k0@ && ks[1] == k1@ && ks[2] == k2@ && ks[3] == k3@);
        if r {
            if contains_nocase(m@, k0@) {
                assert(contains_nocase(m@, ks[0]));
            } else if contains_nocase(m@, k1@) {
                assert(contains_nocase(m@, ks[1]));
            } else if contains_nocase(m@, k2@) {
                assert(contains_nocase(m@, ks[2]));
            } else {
                assert(contains_nocase(m@, ks[3]));
            }
        }
    }
    r
}

/// Whether `m` is a state-table migration.
pub fn is_create_exec(m: &Vec<char>) -> (r: bool)
    ensures
        r == is_create(m@),
{
    let p = chars_of(CREATE_TABLE);
    if p.len() > m.len() {
        return false;
    }
    let mut k: usize = 0;
    while k < p.len()
        invariant
            p@ == create_kw(),
            p.len() <= m.len(),
            k <= p.len(),
            forall|j: int| 0 <= j < k ==> m@[j] == p@[j],
        decreases p.len() - k,
    {
        if m[k] != p[k] {
            assert(m@.subrange(0, p@.len() as int)[k as int] != p@[k as int]);
            return false;
        }
        k = k + 1;
    }
    assert(m@.subrange(0, p@.len() as int) =~= p@);
    true
}

fn slice(s: &Vec<char>, a: usize, b: usize) -> (r: Vec<char>)
    requires
        a <= b <= s.len(),
    ensures
        r@ == s@.subrange(a as int, b as int),
{
    let mut r: Vec<char> = Vec::new();
    let mut i: usize = a;
    while i < b
        invariant
            a <= i <= b <= s.len(),
            r@ == s@.subrange(a as int, i as int),
        decreases b - i,
    {
        r.push(s[i]);
        i = i + 1;
    }
    r
}

proof fn lemma_index_of(s: Seq<char>, c: char, k: int)
    requires
        0 <= k <= s.len(),
        forall|j: int| 0 <= j < k ==> #[trigger] s[j] != c,
        k == s.len() || s[k] == c,
    ensures
        index_of(s, c) == k,
    decreases k,
{
    if k > 0 {
        let t = s.drop_first();
        assert forall|j: int| 0 <= j < k - 1 implies #[trigger] t[j] != c by {
            assert(t[j] == s[j + 1]);
        }
        lemma_index_of(t, c, k - 1);
    }
}

fn index_of_exec(s: &Vec<char>, c: char) -> (r: usize)
    ensures
        r as int == index_of(s@, c),
        r <= s.len(),
{
    let mut k: usize = 0;
    while k < s.len() && s[k] != c
        invariant
            k <= s.len(),
            forall|j: int| 0 <= j < k ==> #[trigger] s@[j] != c,
        decreases s.len() - k,
    {
        k = k + 1;
    }
    proof {
        lemma_index_of(s@, c, k as int);
    }
    k
}

proof fn lemma_last_index_of(s: Seq<char>, c: char, k: int)
    requires
        0 <= k <= s.len(),
        forall|j: int| k <= j < s.len() ==> #[trigger] s[j] != c,
        k == 0 || s[k - 1] == c,
    ensures
        last_index_of(s, c) == k - 1,
    decreases s.len(),
{
    if s.len() > 0 && k < s.len() {
        let t = s.drop_last();
        assert forall|j: int| k <= j < t.len() implies #[trigger] t[j] != c by {
            assert(t[j] == s[j]);
        }
        lemma_last_index_of(t, c, k);
    }
}

/// Position of the last `c` plus one, or 0 when there is none.
fn last_index_of_exec(s: &Vec<char>, c: char) -> (r: usize)
    ensures
        r as int - 1 == last_index_of(s@, c),
        r <= s.len(),
{
    let mut k: usize = s.len();
    while k > 0 && s[k - 1] != c
        invariant
            k <= s.len(),
            forall|j: int| k <= j < s.len() ==> #[trigger] s@[j] != c,
        decreases k,
    {
        k = k - 1;
    }
    proof {
        lemma_last_index_of(s@, c, k as int);
    }
    k
}

/// The table name of a state-table migration.
fn table_name_exec(m: &Vec<char>) -> (r: Vec<char>)
    requires
        is_create(m@),
    ensures
        r@ == table_name(m@),
{
    let n = chars_of(CREATE_TABLE).len();
    let rest = slice(m, n, m.len());
    let o = index_of_exec(&rest, '(');
    let head = slice(&rest, 0, o);
    collapse_ws_exec(&head)
}

/// The text of the column list of a state-table migration.
fn column_text_exec(m: &Vec<char>) -> (r: Vec<char>)
    requires
        is_create(m@),
    ensures
        r@ == column_text(m@),
{
    let n = chars_of(CREATE_TABLE).len();
    let rest = slice(m, n, m.len());
    let o = index_of_exec(&rest, '(');
    if o < rest.len() {
        let b = slice(&rest, o + 1, rest.len());
        let c = last_index_of_exec(&b, ')');
        if c > 0 {
            slice(&b, 0, c - 1)
        } else {
            b
        }
    } else {
        Vec::new()
    }
}

fn columns_of_exec(parts: &Vec<Vec<char>>) -> (r: Vec<Vec<char>>)
    ensures
        views(r@) == columns_of(views(parts@)),
{
    let mut r: Vec<Vec<char>> = Vec::new();
    let mut i: usize = 0;
    while i < parts.len()
        invariant
            i <= parts.len(),
            views(r@) == columns_of(views(parts@).subrange(0, i as int)),
        decreases parts.len() - i,
    {
        let ghost sub = views(parts@).subrange(0, i as int + 1);
        assert(sub.drop_last() =~= views(parts@).subrange(0, i as int));
        assert(sub.last() == parts@[i as int]@);
        let c = collapse_ws_exec(&parts[i]);
        if c.len() > 0 {
            let ghost before = r@;
            r.push(c);
            assert(views(r@) =~= views(before).push(c@));
        }
        i = i + 1;
    }
    assert(views(parts@).subrange(0, parts@.len() as int) =~= views(parts@));
    r
}

/// The user's column definitions of a state-table migration.
fn user_columns_exec(m: &Vec<char>) -> (r: Vec<Vec<char>>)
    requires
        is_create(m@),
    ensures
        views(r@) == user_columns(m@),
{
    let t = column_text_exec(m);
    let parts = split_on_exec(&t, ',');
    columns_of_exec(&parts)
}

/// The columns without those that repeat a default field named by an earlier column.
fn dedup_exec(cols: &Vec<Vec<char>>) -> (r: Vec<Vec<char>>)
    ensures
        views(r@) == dedup(views(cols@)),
{
    let fields = default_fields_exec();
    let ghost cv = views(cols@);
    assert(views(fields@).len() == 7);
    let mut seen: Vec<bool> = Vec::new();
    let mut k: usize = 0;
    while k < 7
        invariant
            k <= 7,
            seen@.len() == k,
            forall|kk: int| 0 <= kk < k ==> !seen@[kk],
        decreases 7 - k,
    {
        seen.push(false);
        k = k + 1;
    }
    let mut r: Vec<Vec<char>> = Vec::new();
    let mut i: usize = 0;
    while i < cols.len()
        invariant
            cv == views(cols@),
            views(fields@) == default_fields(),
            fields@.len() == 7,
            i <= cols.len(),
            seen@.len() == 7,
            forall|kk: int| 0 <= kk < 7 ==> seen@[kk] == seen_before(cv, i as int, kk),
            views(r@) == dedup_upto(cv, i as int),
        decreases cols.len() - i,
    {
        let ghost old_seen = seen@;
        let mut drop = false;
        let mut k: usize = 0;
        while k < 7
            invariant
                cv == views(cols@),
                views(fields@) == default_fields(),
                fields@.len() == 7,
                i < cols.len(),
                k <= 7,
                seen@.len() == 7,
                old_seen.len() == 7,
                forall|kk: int|
                    0 <= kk < k ==> seen@[kk] == (old_seen[kk] || contains(
                        cv[i as int],
                        default_fields()[kk],
                    )),
                forall|kk: int| k <= kk < 7 ==> seen@[kk] == old_seen[kk],
                drop == exists|kk: int|
                    0 <= kk < k && old_seen[kk] && contains(cv[i as int], #[trigger] default_fields()[kk]),
            decreases 7 - k,
        {
            assert(views(fields@)[k as int] == fields@[k as int]@);
            assert(cols@[i as int]@ == cv[i as int]);
            let has = contains_exec(&cols[i], &fields[k]);
            if has && seen[k] {
                drop = true;
            }
            if has {
                seen[k] = true;
            }
            k = k + 1;
        }
        proof {
            if drop {
                let kk = choose|kk: int|
                    0 <= kk < 7 && old_seen[kk] && contains(cv[i as int], #[trigger] default_fields()[kk]);
                assert(seen_before(cv, i as int, kk));
            } else {
                assert forall|kk: int| 0 <= kk < 7 implies !(#[trigger] seen_before(cv, i as int, kk)
                    && contains(cv[i as int], default_fields()[kk])) by {
                    assert(old_seen[kk] == seen_before(cv, i as int, kk));
                }
            }
            assert(drop == repeats_earlier(cv, i as int));
            assert forall|kk: int| 0 <= kk < 7 implies seen@[kk] == seen_before(cv, i as int + 1, kk) by {
                if contains(cv[i as int], default_fields()[kk]) {
                    assert(seen_before(cv, i as int + 1, kk));
                }
                if seen_before(cv, i as int + 1, kk) {
                    let j = choose|j: int| 0 <= j < i + 1 && contains(#[trigger] cv[j], default_fields()[kk]);
                    if j < i {
                        assert(seen_before(cv, i as int, kk));
                    }
                }
                if seen_before(cv, i as int, kk) {
                    let j = choose|j: int| 0 <= j < i && contains(#[trigger] cv[j], default_fields()[kk]);
                    assert(seen_before(cv, i as int + 1, kk));
                }
            }
        }
        if !drop {
            let ghost before = r@;
            let c = slice(&cols[i], 0, cols[i].len());
            assert(c@ == cv[i as int]);
            r.push(c);
            assert(views(r@) =~= views(before).push(cv[i as int]));
        }
        i = i + 1;
    }
    r
}

/// `CREATE TABLE IF NOT EXISTS <name> (<cols joined by ", ">)`.
fn render_create_exec(name: &Vec<char>, cols: &Vec<Vec<char>>) -> (r: Vec<char>)
    ensures
        r@ == render_create(name@, views(cols@)),
{
    let mut r: Vec<char> = Vec::new();
    push_str(&mut r, CREATE_TABLE);
    push_str(&mut r, " ");
    push_all(&mut r, name);
    push_str(&mut r, " (");
    let sep = chars_of(", ");
    let body = join_exec(cols, &sep);
    push_all(&mut r, &body);
    push_str(&mut r, ")");
    r
}

fn index_fields_exec(cols: &Vec<Vec<char>>) -> (r: Vec<Vec<char>>)
    ensures
        views(r@) == index_fields_upto(views(cols@), cols@.len() as int),
{
    let skip = chars_of("state_version_id");
    let mut r: Vec<Vec<char>> = Vec::new();
    let mut i: usize = 0;
    while i < cols.len()
        invariant
            i <= cols.len(),
            skip@ == "state_version_id"@,
            views(r@) == index_fields_upto(views(cols@), i as int),
        decreases cols.len() - i,
    {
        assert(views(cols@)[i as int] == cols@[i as int]@);
        let w = first_word_exec(&cols[i]);
        let same = w.len() == skip.len() && contains_exec(&w, &skip);
        proof {
            if same {
                let j = choose|j: int| occurs_at(w@, skip@, j);
                assert(j == 0);
                assert(w@.subrange(0, w@.len() as int) =~= w@);
            } else if w@ == skip@ {
                assert(w@.subrange(0, skip@.len() as int) =~= skip@);
                assert(occurs_at(w@, skip@, 0));
            }
        }
        if !same {
            let ghost before = r@;
            r.push(w);
            assert(views(r@) =~= views(before).push(r@.last()@));
        }
        i = i + 1;
    }
    r
}

fn concat_cols(a: &Vec<Vec<char>>, b: &Vec<Vec<char>>) -> (r: Vec<Vec<char>>)
    ensures
        views(r@) == views(a@) + views(b@),
{
    let mut r: Vec<Vec<char>> = Vec::new();
    let mut i: usize = 0;
    while i < a.len()
        invariant
            i <= a.len(),
            views(r@) == views(a@).subrange(0, i as int),
        decreases a.len() - i,
    {
        let c = slice(&a[i], 0, a[i].len());
        assert(c@ == views(a@)[i as int]);
        let ghost before = r@;
        r.push(c);
        assert(views(r@) =~= views(before).push(c@));
        assert(views(r@) =~= views(a@).subrange(0, i as int + 1));
        i = i + 1;
    }
    let mut j: usize = 0;
    while j < b.len()
        invariant
            j <= b.len(),
            views(r@) == views(a@) + views(b@).subrange(0, j as int),
        decreases b.len() - j,
    {
        let c = slice(&b[j], 0, b[j].len());
        assert(c@ == views(b@)[j as int]);
        let ghost before = r@;
        r.push(c);
        assert(views(r@) =~= views(before).push(c@));
        assert(views(r@) =~= views(a@) + views(b@).subrange(0, j as int + 1));
        j = j + 1;
    }
    assert(views(a@) =~= views(a@).subrange(0, a@.len() as int));
    assert(views(b@) =~= views(b@).subrange(0, b@.len() as int));
    r
}

pub(crate) proof fn lemma_dedup_nonempty(cols: Seq<Seq<char>>, n: int)
    requires
        1 <= n <= cols.len(),
    ensures
        dedup_upto(cols, n).len() >= 1,
        dedup_upto(cols, n)[0] == cols[0],
    decreases n,
{
    if n > 1 {
        lemma_dedup_nonempty(cols, n - 1);
        let r = dedup_upto(cols, n - 1);
        if !repeats_earlier(cols, n - 1) {
            assert(r.push(cols[n - 1])[0] == r[0]);
        }
    } else {
        assert(dedup_upto(cols, 0).len() == 0);
        assert(!repeats_earlier(cols, 0));
        assert(dedup_upto(cols, 1) == dedup_upto(cols, 0).push(cols[0]));
    }
}

/// `dedup_after` computed.
fn dedup_after_exec(head: &Vec<char>, cols: &Vec<Vec<char>>) -> (r: Vec<Vec<char>>)
    ensures
        views(r@) == dedup_after(head@, views(cols@)),
{
    let mut first: Vec<Vec<char>> = Vec::new();
    let h = slice(head, 0, head.len());
    assert(h@ =~= head@);
    first.push(h);
    assert(views(first@) =~= seq![head@]);
    let all = concat_cols(&first, cols);
    let d = dedup_exec(&all);
    proof {
        lemma_dedup_nonempty(views(all@), views(all@).len() as int);
    }
    let mut r: Vec<Vec<char>> = Vec::new();
    let mut i: usize = 1;
    while i < d.len()
        invariant
            1 <= i <= d.len(),
            views(r@) == views(d@).subrange(1, i as int),
        decreases d.len() - i,
    {
        let c = slice(&d[i], 0, d[i].len());
        assert(c@ == views(d@)[i as int]);
        let ghost before = r@;
        r.push(c);
        assert(views(r@) =~= views(before).push(c@));
        assert(views(r@) =~= views(d@).subrange(1, i as int + 1));
        i = i + 1;
    }
    assert(views(d@).subrange(1, d@.len() as int) =~= views(d@).drop_first());
    r
}

fn view_migration_exec(m: &Vec<char>, user: &Vec<Vec<char>>, name: &Vec<char>) -> (r: Vec<char>)
    requires
        views(user@) == user_columns(m@),
        name@ == table_name(m@),
    ensures
        r@ == view_migration(m@),
{
    let defaults = default_columns_exec();
    let all = concat_cols(user, &defaults);
    let cols = dedup_after_exec(name, &all);
    render_create_exec(name, &cols)
}

fn versions_table_exec(name: &Vec<char>) -> (r: Vec<char>)
    ensures
        r@ == versions_prefix() + name@,
{
    let mut t = chars_of(STATE_VERSIONS_TABLE_PREFIX);
    push_all(&mut t, name);
    t
}

fn version_columns_exec(m: &Vec<char>, user: &Vec<Vec<char>>) -> (r: Vec<Vec<char>>)
    requires
        is_create(m@),
        views(user@) == user_columns(m@),
    ensures
        views(r@) == version_columns(m@),
{
    let head = version_head_columns_exec();
    let defaults = default_columns_exec();
    let a = concat_cols(&head, user);
    let all = concat_cols(&a, &defaults);
    let name = table_name_exec(m);
    let t = versions_table_exec(&name);
    dedup_after_exec(&t, &all)
}

fn index_migration_exec(t: &Vec<char>, cols: &Vec<Vec<char>>) -> (r: Vec<char>)
    ensures
        r@ == "CREATE UNIQUE INDEX IF NOT EXISTS unique_"@ + t@ + " ON "@ + t@ + "("@ + join(
            index_fields_upto(views(cols@), cols@.len() as int),
            ", "@,
        ) + ")"@,
{
    let fields = index_fields_exec(cols);
    let sep = chars_of(", ");
    let body = join_exec(&fields, &sep);
    let mut r: Vec<char> = Vec::new();
    push_str(&mut r, "CREATE UNIQUE INDEX IF NOT EXISTS unique_");
    push_all(&mut r, t);
    push_str(&mut r, " ON ");
    push_all(&mut r, t);
    push_str(&mut r, "(");
    push_all(&mut r, &body);
    push_str(&mut r, ")");
    r
}

/// Appends what one user migration becomes to `out`.
fn plan_one_exec(m: &Vec<char>, out: &mut Vec<String>)
    ensures
        string_views(final(out)@) == string_views(old(out)@) + plan_one(m@),
{
    let ghost before = out@;
    if is_create_exec(m) {
        let user = user_columns_exec(m);
        let name = table_name_exec(m);
        let view = view_migration_exec(m, &user, &name);
        let t = versions_table_exec(&name);
        let vcols = version_columns_exec(m, &user);
        let versions = render_create_exec(&t, &vcols);
        let index = index_migration_exec(&t, &vcols);
        out.push(string_of(&view));
        out.push(string_of(&versions));
        out.push(string_of(&index));
        assert(string_views(out@) =~= string_views(before) + plan_one(m@));
    } else {
        out.push(string_of(m));
        assert(string_views(out@) =~= string_views(before) + plan_one(m@));
    }
}

/// Index of the first disallowed migration, if any.
fn first_disallowed(ms: &Vec<&str>) -> (r: Option<usize>)
    ensures
        match r {
            Some(i) => i < ms@.len() && is_disallowed(str_views(ms@)[i as int]) && forall|j: int|
                0 <= j < i ==> !is_disallowed(#[trigger] str_views(ms@)[j]),
            None => forall|j: int|
                0 <= j < ms@.len() ==> !is_disallowed(#[trigger] str_views(ms@)[j]),
        },
{
    let mut i: usize = 0;
    while i < ms.len()
        invariant
            i <= ms.len(),
            forall|j: int| 0 <= j < i ==> !is_disallowed(#[trigger] str_views(ms@)[j]),
        decreases ms.len() - i,
    {
        let m = chars_of(ms[i]);
        if is_disallowed_exec(&m) {
            return Some(i);
        }
        i = i + 1;
    }
    None
}

/// Plans the user migrations: every state-table migration becomes a view table,
/// a version table and a uniqueness index; any other migration is kept as it is.
/// A migration that mentions a temporal column type rejects the whole list.
pub fn plan_migrations(ms: &Vec<&str>) -> (r: Result<Vec<String>, MigrationError>)
    ensures
        match r {
            Ok(v) => (forall|j: int| 0 <= j < ms@.len() ==> !is_disallowed(#[trigger] str_views(ms@)[j]))
                && string_views(v@) == plan(str_views(ms@)),
            Err(MigrationError::DisallowedColumnType { index }) => index < ms@.len()
                && is_disallowed(str_views(ms@)[index as int]) && forall|j: int|
                0 <= j < index ==> !is_disallowed(#[trigger] str_views(ms@)[j]),
        },
{
    if let Some(index) = first_disallowed(ms) {
        return Err(MigrationError::DisallowedColumnType { index });
    }
    let ghost sv = str_views(ms@);
    let mut out: Vec<String> = Vec::new();
    let mut i: usize = 0;
    while i < ms.len()
        invariant
            sv == str_views(ms@),
            i <= ms.len(),
            string_views(out@) == plan(sv.subrange(0, i as int)),
        decreases ms.len() - i,
    {
        let m = chars_of(ms[i]);
        assert(sv.subrange(0, i as int + 1).drop_last() =~= sv.subrange(0, i as int));
        plan_one_exec(&m, &mut out);
        i = i + 1;
    }
    assert(sv.subrange(0, ms@.len() as int) =~= sv);
    Ok(out)
}

/// The tables that the user's state-table migrations create, in order.
pub fn table_names_of(ms: &Vec<&str>) -> (r: Vec<String>)
    ensures
        string_views(r@) == table_names(str_views(ms@)),
{
    let ghost sv = str_views(ms@);
    let mut out: Vec<String> = Vec::new();
    let mut i: usize = 0;
    while i < ms.len()
        invariant
            sv == str_views(ms@),
            i <= ms.len(),
            string_views(out@) == table_names(sv.subrange(0, i as int)),
        decreases ms.len() - i,
    {
        let m = chars_of(ms[i]);
        assert(sv.subrange(0, i as int + 1).drop_last() =~= sv.subrange(0, i as int));
        if is_create_exec(&m) {
            let name = table_name_exec(&m);
            let ghost before = out@;
            out.push(string_of(&name));
            assert(string_views(out@) =~= string_views(before).push(name@));
        }
        i = i + 1;
    }
    assert(sv.subrange(0, ms@.len() as int) =~= sv);
    out
}

/// One `DROP TABLE IF EXISTS` per table that planning the migrations creates.
/// Rejects the same lists as `plan_migrations`.
pub fn reset_migrations_of(ms: &Vec<&str>) -> (r: Result<Vec<String>, MigrationError>)
    ensures
        match r {
            Ok(v) => (forall|j: int| 0 <= j < ms@.len() ==> !is_disallowed(#[trigger] str_views(ms@)[j]))
                && string_views(v@) == reset_plan(str_views(ms@)),
            Err(MigrationError::DisallowedColumnType { index }) => index < ms@.len()
                && is_disallowed(str_views(ms@)[index as int]) && forall|j: int|
                0 <= j < index ==> !is_disallowed(#[trigger] str_views(ms@)[j]),
        },
{
    if let Some(index) = first_disallowed(ms) {
        return Err(MigrationError::DisallowedColumnType { index });
    }
    let ghost sv = str_views(ms@);
    let mut out: Vec<String> = Vec::new();
    let mut i: usize = 0;
    while i < ms.len()
        invariant
            sv == str_views(ms@),
            i <= ms.len(),
            string_views(out@) == reset_plan(sv.subrange(0, i as int)),
        decreases ms.len() - i,
    {
        let m = chars_of(ms[i]);
        assert(sv.subrange(0, i as int + 1).drop_last() =~= sv.subrange(0, i as int));
        if is_create_exec(&m) {
            let name = table_name_exec(&m);
            let t = versions_table_exec(&name);
            let mut a: Vec<char> = Vec::new();
            push_str(&mut a, "DROP TABLE IF EXISTS ");
            push_all(&mut a, &name);
            let mut b: Vec<char> = Vec::new();
            push_str(&mut b, "DROP TABLE IF EXISTS ");
            push_all(&mut b, &t);
            let ghost before = out@;
            out.push(string_of(&a));
            out.push(string_of(&b));
            assert(string_views(out@) =~= string_views(before) + seq![a@, b@]);
        }
        i = i + 1;
    }
    assert(sv.subrange(0, ms@.len() as int) =~= sv);
    Ok(out)
}

/// The migrations of a consumer's contract states, and what they plan to.
pub trait ContractStateMigrations {
    /// The user's migrations, as character sequences.
    spec fn spec_migrations(&self) -> Seq<Seq<char>>;

    /// The user's own migrations, in order.
    fn migrations(&self) -> (r: Vec<&'static str>)
        ensures
            str_views(r@) == self.spec_migrations(),
    ;

    /// The tables that the user's state-table migrations create.
    fn get_table_names(&self) -> (r: Vec<String>)
        ensures
            string_views(r@) == table_names(self.spec_migrations()),
    {
        table_names_of(&self.migrations())
    }

    /// The planned migrations (see `plan_migrations`).
    fn get_migrations(&self) -> (r: Result<Vec<String>, MigrationError>)
        ensures
            match r {
                Ok(v) => (forall|j: int|
                    0 <= j < self.spec_migrations().len() ==> !is_disallowed(
                        #[trigger] self.spec_migrations()[j],
                    )) && string_views(v@) == plan(self.spec_migrations()),
                Err(MigrationError::DisallowedColumnType { index }) => index
                    < self.spec_migrations().len() && is_disallowed(
                    self.spec_migrations()[index as int],
                ) && forall|j: int|
                    0 <= j < index ==> !is_disallowed(#[trigger] self.spec_migrations()[j]),
            },
    {
        plan_migrations(&self.migrations())
    }

    /// The statements that drop every planned table (see `reset_migrations_of`).
    fn get_reset_migrations(&self) -> (r: Result<Vec<String>, MigrationError>)
        ensures
            match r {
                Ok(v) => (forall|j: int|
                    0 <= j < self.spec_migrations().len() ==> !is_disallowed(
                        #[trigger] self.spec_migrations()[j],
                    )) && string_views(v@) == reset_plan(self.spec_migrations()),
                Err(MigrationError::DisallowedColumnType { index }) => index
                    < self.spec_migrations().len() && is_disallowed(
                    self.spec_migrations()[index as int],
                ) && forall|j: int|
                    0 <= j < index ==> !is_disallowed(#[trigger] self.spec_migrations()[j]),
            },
    {
        reset_migrations_of(&self.migrations())
    }
}

/// The columns that every state table carries.
pub struct DefaultMigration;

impl DefaultMigration {
    /// The definitions of the default columns, joined by `", "`.
    pub fn get() -> (r: String)
        ensures
            r@ == join(default_columns(), ", "@),
    {
        let cols = default_columns_exec();
        let sep = chars_of(", ");
        let body = join_exec(&cols, &sep);
        string_of(&body)
    }

    /// The names of the default columns.
    pub fn get_fields() -> (r: Vec<&'static str>)
        ensures
            str_views(r@) == default_fields(),
    {
        let r = vec![
            "contract_address",
            "chain_id",
            "block_hash",
            "block_number",
            "transaction_hash",
            "transaction_index",
            "log_index",
        ];
        assert(str_views(r@) =~= default_fields());
        r
    }

    /// The columns without those that repeat a default field named by an earlier column.
    pub fn remove_repeating_occurrences(cols: &Vec<String>) -> (r: Vec<String>)
        ensures
            string_views(r@) == dedup(string_views(cols@)),
    {
        let mut cs: Vec<Vec<char>> = Vec::new();
        let mut i: usize = 0;
        while i < cols.len()
            invariant
                i <= cols.len(),
                views(cs@) == string_views(cols@).subrange(0, i as int),
            decreases cols.len() - i,
        {
            let c = chars_of(cols[i].as_str());
            let ghost before = cs@;
            cs.push(c);
            assert(views(cs@) =~= views(before).push(c@));
            assert(views(cs@) =~= string_views(cols@).subrange(0, i as int + 1));
            i = i + 1;
        }
        assert(string_views(cols@).subrange(0, cols@.len() as int) =~= string_views(cols@));
        let d = dedup_exec(&cs);
        let mut r: Vec<String> = Vec::new();
        let mut j: usize = 0;
        while j < d.len()
            invariant
                j <= d.len(),
                string_views(r@) == views(d@).subrange(0, j as int),
            decreases d.len() - j,
        {
            let s = string_of(&d[j]);
            let ghost before = r@;
            r.push(s);
            assert(string_views(r@) =~= string_views(before).push(s@));
            assert(string_views(r@) =~= views(d@).subrange(0, j as int + 1));
            j = j + 1;
        }
        assert(views(d@).subrange(0, d@.len() as int) =~= views(d@));
        r
    }
}

} // verus!
