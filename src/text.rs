//! Character-level text helpers used by the state-migration planner.
use vstd::prelude::*;

verus! {

/// ASCII whitespace, as `str::split_ascii_whitespace` understands it.
pub open spec fn is_ascii_ws(c: char) -> bool {
    c == ' ' || c == '\t' || c == '\n' || c == '\x0C' || c == '\r'
}

/// The code of a character after ASCII lower-casing; other characters keep their code.
pub open spec fn lower_code(c: char) -> u32 {
    let u = c as u32;
    if 65 <= u && u <= 90 {
        (u + 32) as u32
    } else {
        u
    }
}

/// `f` occurs in `s` at position `i`.
pub open spec fn occurs_at(s: Seq<char>, f: Seq<char>, i: int) -> bool {
    0 <= i && i + f.len() <= s.len() && s.subrange(i, i + f.len()) == f
}

/// `f` occurs somewhere in `s`.
pub open spec fn contains(s: Seq<char>, f: Seq<char>) -> bool {
    exists|i: int| occurs_at(s, f, i)
}

/// `f` occurs in `s` at position `i` when letters are compared without case.
pub open spec fn occurs_at_nocase(s: Seq<char>, f: Seq<char>, i: int) -> bool {
    0 <= i && i + f.len() <= s.len() && forall|k: int|
        0 <= k < f.len() ==> lower_code(#[trigger] s[i + k]) == lower_code(f[k])
}

/// `f` occurs somewhere in `s`, letters compared without case.
pub open spec fn contains_nocase(s: Seq<char>, f: Seq<char>) -> bool {
    exists|i: int| occurs_at_nocase(s, f, i)
}

pub open spec fn starts_with(s: Seq<char>, p: Seq<char>) -> bool {
    p.len() <= s.len() && s.subrange(0, p.len() as int) == p
}

/// Runs of ASCII whitespace become one space; leading and trailing whitespace goes.
pub open spec fn collapse_ws(s: Seq<char>) -> Seq<char>
    decreases s.len(),
{
    if s.len() == 0 {
        Seq::empty()
    } else {
        let r = collapse_ws(s.drop_last());
        let c = s.last();
        if is_ascii_ws(c) {
            r
        } else if s.len() >= 2 && is_ascii_ws(s[s.len() - 2]) && r.len() > 0 {
            r.push(' ').push(c)
        } else {
            r.push(c)
        }
    }
}

/// The pieces of `s` between occurrences of `sep` (always at least one piece).
pub open spec fn split_on(s: Seq<char>, sep: char) -> Seq<Seq<char>>
    decreases s.len(),
{
    if s.len() == 0 {
        seq![Seq::empty()]
    } else {
        let p = split_on(s.drop_last(), sep);
        if s.last() == sep {
            p.push(Seq::empty())
        } else {
            p.update(p.len() - 1, p.last().push(s.last()))
        }
    }
}

/// The parts joined with `sep` between neighbours.
pub open spec fn join(parts: Seq<Seq<char>>, sep: Seq<char>) -> Seq<char>
    decreases parts.len(),
{
    if parts.len() == 0 {
        Seq::empty()
    } else if parts.len() == 1 {
        parts[0]
    } else {
        join(parts.drop_last(), sep) + sep + parts.last()
    }
}

/// The characters before the first whitespace of `s` (all of `s` if it has none).
pub open spec fn first_word(s: Seq<char>) -> Seq<char>
    decreases s.len(),
{
    if s.len() == 0 {
        Seq::empty()
    } else if is_ascii_ws(s[0]) {
        Seq::empty()
    } else {
        seq![s[0]] + first_word(s.drop_first())
    }
}

/// The characters of `s`, in order.
pub fn chars_of(s: &str) -> (r: Vec<char>)
    ensures
        r@ == s@,
{
    let n = s.unicode_len();
    let mut r: Vec<char> = Vec::new();
    let mut i: usize = 0;
    while i < n
        invariant
            n == s@.len(),
            i <= n,
            r@ == s@.subrange(0, i as int),
        decreases n - i,
    {
        r.push(s.get_char(i));
        i = i + 1;
    }
    assert(r@ =~= s@);
    r
}

/// Relies on `String`'s `FromIterator<char>`: the string holds the characters in order.
#[verifier::external_body]
pub(crate) fn string_of(v: &Vec<char>) -> (r: String)
    ensures
        r@ == v@,
{
    v.iter().collect()
}

/// Appends the characters of `s` to `out`.
pub fn push_str(out: &mut Vec<char>, s: &str)
    ensures
        final(out)@ == old(out)@ + s@,
{
    let v = chars_of(s);
    push_all(out, &v);
}

/// Appends the characters of `v` to `out`.
pub fn push_all(out: &mut Vec<char>, v: &Vec<char>)
    ensures
        final(out)@ == old(out)@ + v@,
{
    let ghost start = out@;
    let mut i: usize = 0;
    while i < v.len()
        invariant
            i <= v.len(),
            out@ == start + v@.subrange(0, i as int),
        decreases v.len() - i,
    {
        out.push(v[i]);
        i = i + 1;
    }
    assert(v@.subrange(0, v@.len() as int) =~= v@);
}

/// Whether `f` occurs in `s` at position `i`.
fn occurs_at_exec(s: &Vec<char>, f: &Vec<char>, i: usize) -> (r: bool)
    requires
        i + f.len() <= s.len(),
    ensures
        r == occurs_at(s@, f@, i as int),
{
    let mut k: usize = 0;
    while k < f.len()
        invariant
            i + f.len() <= s.len(),
            k <= f.len(),
            forall|j: int| 0 <= j < k ==> s@[i + j] == f@[j],
        decreases f.len() - k,
    {
        if s[i + k] != f[k] {
            assert(s@.subrange(i as int, i + f.len())[k as int] != f@[k as int]);
            return false;
        }
        k = k + 1;
    }
    assert(s@.subrange(i as int, i + f.len()) =~= f@);
    true
}

/// Whether `f` occurs in `s`.
pub fn contains_exec(s: &Vec<char>, f: &Vec<char>) -> (r: bool)
    ensures
        r == contains(s@, f@),
{
    if f.len() > s.len() {
        return false;
    }
    if f.len() == 0 {
        assert(s@.subrange(0, 0) =~= f@);
        assert(occurs_at(s@, f@, 0));
        return true;
    }
    let mut i: usize = 0;
    while i <= s.len() - f.len()
        invariant
            0 < f.len() <= s.len(),
            i <= s.len() - f.len() + 1,
            forall|j: int| 0 <= j < i ==> !occurs_at(s@, f@, j),
        decreases s.len() + 1 - i,
    {
        if occurs_at_exec(s, f, i) {
            return true;
        }
        i = i + 1;
    }
    false
}

fn lower_code_exec(c: char) -> (r: u32)
    ensures
        r == lower_code(c),
{
    let u = c as u32;
    if 65 <= u && u <= 90 {
        u + 32
    } else {
        u
    }
}

fn occurs_at_nocase_exec(s: &Vec<char>, f: &Vec<char>, i: usize) -> (r: bool)
    requires
        i + f.len() <= s.len(),
    ensures
        r == occurs_at_nocase(s@, f@, i as int),
{
    let mut k: usize = 0;
    while k < f.len()
        invariant
            i + f.len() <= s.len(),
            k <= f.len(),
            forall|j: int| 0 <= j < k ==> lower_code(#[trigger] s@[i + j]) == lower_code(f@[j]),
        decreases f.len() - k,
    {
        if lower_code_exec(s[i + k]) != lower_code_exec(f[k]) {
            return false;
        }
        k = k + 1;
    }
    true
}

/// Whether `f` occurs in `s`, letters compared without case.
pub fn contains_nocase_exec(s: &Vec<char>, f: &Vec<char>) -> (r: bool)
    ensures
        r == contains_nocase(s@, f@),
{
    if f.len() > s.len() {
        return false;
    }
    if f.len() == 0 {
        assert(occurs_at_nocase(s@, f@, 0));
        return true;
    }
    let mut i: usize = 0;
    while i <= s.len() - f.len()
        invariant
            0 < f.len() <= s.len(),
            i <= s.len() - f.len() + 1,
            forall|j: int| 0 <= j < i ==> !occurs_at_nocase(s@, f@, j),
        decreases s.len() + 1 - i,
    {
        if occurs_at_nocase_exec(s, f, i) {
            return true;
        }
        i = i + 1;
    }
    false
}

/// The views of a sequence of character vectors.
pub open spec fn views(v: Seq<Vec<char>>) -> Seq<Seq<char>> {
    v.map_values(|x: Vec<char>| x@)
}

/// `collapse_ws` computed.
pub fn collapse_ws_exec(s: &Vec<char>) -> (r: Vec<char>)
    ensures
        r@ == collapse_ws(s@),
{
    let mut r: Vec<char> = Vec::new();
    let mut i: usize = 0;
    while i < s.len()
        invariant
            i <= s.len(),
            r@ == collapse_ws(s@.subrange(0, i as int)),
        decreases s.len() - i,
    {
        let ghost pre = s@.subrange(0, i as int + 1);
        assert(pre.drop_last() =~= s@.subrange(0, i as int));
        let c = s[i];
        if c == ' ' || c == '\t' || c == '\n' || c == '\x0C' || c == '\r' {
        } else if i >= 1 && r.len() > 0 && (s[i - 1] == ' ' || s[i - 1] == '\t' || s[i - 1] == '\n'
            || s[i - 1] == '\x0C' || s[i - 1] == '\r') {
            r.push(' ');
            r.push(c);
        } else {
            r.push(c);
        }
        i = i + 1;
    }
    assert(s@.subrange(0, s@.len() as int) =~= s@);
    r
}

/// `split_on` computed.
pub fn split_on_exec(s: &Vec<char>, sep: char) -> (r: Vec<Vec<char>>)
    ensures
        views(r@) == split_on(s@, sep),
{
    let mut parts: Vec<Vec<char>> = Vec::new();
    let mut cur: Vec<char> = Vec::new();
    let mut i: usize = 0;
    assert(views(parts@).push(cur@) =~= split_on(s@.subrange(0, 0), sep));
    while i < s.len()
        invariant
            i <= s.len(),
            views(parts@).push(cur@) == split_on(s@.subrange(0, i as int), sep),
        decreases s.len() - i,
    {
        let ghost pre = s@.subrange(0, i as int + 1);
        assert(pre.drop_last() =~= s@.subrange(0, i as int));
        let ghost old_parts = parts@;
        let ghost old_cur = cur@;
        if s[i] == sep {
            let done = cur;
            parts.push(done);
            cur = Vec::new();
            assert(views(parts@) =~= views(old_parts).push(old_cur));
        } else {
            cur.push(s[i]);
            assert(views(parts@).push(cur@) =~= views(old_parts).push(old_cur).update(
                old_parts.len() as int,
                old_cur.push(s@[i as int]),
            ));
        }
        i = i + 1;
    }
    assert(s@.subrange(0, s@.len() as int) =~= s@);
    let ghost old_parts = parts@;
    parts.push(cur);
    assert(views(parts@) =~= views(old_parts).push(parts@.last()@));
    parts
}

/// `join` computed.
pub fn join_exec(parts: &Vec<Vec<char>>, sep: &Vec<char>) -> (r: Vec<char>)
    ensures
        r@ == join(views(parts@), sep@),
{
    let mut r: Vec<char> = Vec::new();
    let mut i: usize = 0;
    while i < parts.len()
        invariant
            i <= parts.len(),
            r@ == join(views(parts@).subrange(0, i as int), sep@),
        decreases parts.len() - i,
    {
        let ghost sub = views(parts@).subrange(0, i as int + 1);
        assert(sub.drop_last() =~= views(parts@).subrange(0, i as int));
        assert(sub.last() == parts@[i as int]@);
        if i > 0 {
            push_all(&mut r, sep);
        }
        push_all(&mut r, &parts[i]);
        i = i + 1;
    }
    assert(views(parts@).subrange(0, parts@.len() as int) =~= views(parts@));
    r
}

proof fn lemma_first_word(s: Seq<char>, k: int)
    requires
        0 <= k <= s.len(),
        forall|j: int| 0 <= j < k ==> !is_ascii_ws(#[trigger] s[j]),
        k == s.len() || is_ascii_ws(s[k]),
    ensures
        first_word(s) == s.subrange(0, k),
    decreases k,
{
    if k == 0 {
        assert(s.subrange(0, 0) =~= Seq::<char>::empty());
    } else {
        let t = s.drop_first();
        assert forall|j: int| 0 <= j < k - 1 implies !is_ascii_ws(#[trigger] t[j]) by {
            assert(t[j] == s[j + 1]);
        }
        lemma_first_word(t, k - 1);
        assert(seq![s[0]] + t.subrange(0, k - 1) =~= s.subrange(0, k));
    }
}

/// `first_word` computed.
pub fn first_word_exec(s: &Vec<char>) -> (r: Vec<char>)
    ensures
        r@ == first_word(s@),
{
    let mut r: Vec<char> = Vec::new();
    let mut k: usize = 0;
    while k < s.len() && !(s[k] == ' ' || s[k] == '\t' || s[k] == '\n' || s[k] == '\x0C'
        || s[k] == '\r')
        invariant
            k <= s.len(),
            r@ == s@.subrange(0, k as int),
            forall|j: int| 0 <= j < k ==> !is_ascii_ws(#[trigger] s@[j]),
        decreases s.len() - k,
    {
        r.push(s[k]);
        k = k + 1;
    }
    proof {
        lemma_first_word(s@, k as int);
    }
    r
}

} // verus!
