//! Child-process discovery over a flat, system-wide enumeration.
//!
//! The kernel cannot be asked for "the children of this process" directly:
//! the only primitive enumerates every process on the system, each paired by
//! a second query with its own parent id, and entries whose query failed are
//! ignored. The completed pid-to-parent map is then filtered down to the
//! entries whose ancestor chain reaches the original process. Because the
//! kernel recycles pids, a reconstructed chain can pass through an unrelated
//! reuser of an exited pid; that is a structural limit of the underlying
//! facility, kept as it is rather than papered over.

use vstd::prelude::*;
use std::collections::HashMap;
use crate::Pid;

verus! {

broadcast use vstd::std_specs::hash::group_hash_axioms;

/// The pid-to-parent map that a sequence of enumeration entries accumulates,
/// later entries winning, exactly as repeated map insertion would build it.
pub open spec fn parent_map(s: Seq<(Pid, Pid)>) -> Map<Pid, Pid>
    decreases s.len(),
{
    if s.len() == 0 {
        Map::empty()
    } else {
        parent_map(s.drop_last()).insert(s.last().0, s.last().1)
    }
}

/// Whether following parent links from `start` arrives at `root` within
/// `fuel` steps. A pid absent from the map ends the walk unsuccessfully.
pub open spec fn reaches_root(m: Map<Pid, Pid>, root: Pid, start: Pid, fuel: nat) -> bool
    decreases fuel,
{
    if start == root {
        true
    } else if fuel == 0 {
        false
    } else if m.contains_key(start) {
        reaches_root(m, root, m[start], (fuel - 1) as nat)
    } else {
        false
    }
}

/// An enumeration entry `(pid, parent)` belongs to the descendants of `root`
/// when it is current — the accumulated map still pairs its pid with this
/// parent, so a pair superseded by a later enumeration of the same pid does
/// not count — and the ancestor chain starting at its parent reaches `root`.
/// A walk of as many steps as there are entries suffices for every acyclic
/// chain.
pub open spec fn is_child_entry(s: Seq<(Pid, Pid)>, root: Pid, e: (Pid, Pid)) -> bool {
    &&& parent_map(s).contains_key(e.0)
    &&& parent_map(s)[e.0] == e.1
    &&& reaches_root(parent_map(s), root, e.1, s.len())
}

/// The descendant test over a fixed enumeration, as a predicate.
pub open spec fn child_pred(s: Seq<(Pid, Pid)>, root: Pid) -> spec_fn((Pid, Pid)) -> bool {
    |e: (Pid, Pid)| is_child_entry(s, root, e)
}

/// The entries of the enumeration whose per-process information query
/// succeeded, in enumeration order; failed queries are ignored.
pub open spec fn successful_entries(s: Seq<Option<(Pid, Pid)>>) -> Seq<(Pid, Pid)>
    decreases s.len(),
{
    if s.len() == 0 {
        Seq::empty()
    } else {
        successful_entries(s.drop_last()) + match s.last() {
            Some(e) => seq![e],
            None => Seq::empty(),
        }
    }
}

/// Keeps, in order, the entries of the enumeration whose information query
/// succeeded, dropping the failed ones.
pub fn collect_entries(results: &Vec<Option<(Pid, Pid)>>) -> (r: Vec<(Pid, Pid)>)
    ensures
        r@ == successful_entries(results@),
{
    let mut out: Vec<(Pid, Pid)> = Vec::new();
    let mut i: usize = 0;
    while i < results.len()
        invariant
            i <= results@.len(),
            out@ == successful_entries(results@.take(i as int)),
        decreases results@.len() - i,
    {
        proof {
            assert(results@.take(i + 1).drop_last() =~= results@.take(i as int));
            assert(results@.take(i + 1).last() == results@[i as int]);
        }
        match results[i] {
            Some(e) => {
                proof {
                    assert(out@.push(e) =~= out@ + seq![e]);
                }
                out.push(e);
            },
            None => {
                proof {
                    assert(out@ + Seq::<(Pid, Pid)>::empty() =~= out@);
                }
            },
        }
        i = i + 1;
    }
    proof {
        assert(results@.take(results@.len() as int) =~= results@);
    }
    out
}

/// Walks parent links in the accumulated map, spending one unit of fuel per
/// step, and reports whether the walk arrives at `root`.
fn walk_reaches(map: &HashMap<Pid, Pid>, root: Pid, start: Pid, fuel: usize) -> (r: bool)
    ensures
        r == reaches_root(map@, root, start, fuel as nat),
    decreases fuel,
{
    if start == root {
        true
    } else if fuel == 0 {
        false
    } else {
        match map.get(&start) {
            Some(parent) => walk_reaches(map, root, *parent, fuel - 1),
            None => false,
        }
    }
}

/// Filters a complete enumeration down to the entries reachable from `root`:
/// exactly those that are current in the accumulated pid-to-parent map and
/// whose ancestor chain, followed through that map, arrives at `root`.
/// Order is the enumeration order.
pub fn filter_child_pids(root: Pid, entries: &Vec<(Pid, Pid)>) -> (r: Vec<(Pid, Pid)>)
    ensures
        r@ == entries@.filter(child_pred(entries@, root)),
{
    let mut map: HashMap<Pid, Pid> = HashMap::new();
    let mut i: usize = 0;
    while i < entries.len()
        invariant
            i <= entries@.len(),
            map@ == parent_map(entries@.take(i as int)),
        decreases entries@.len() - i,
    {
        let e = entries[i];
        proof {
            assert(entries@.take(i + 1).drop_last() =~= entries@.take(i as int));
            assert(entries@.take(i + 1).last() == entries@[i as int]);
        }
        map.insert(e.0, e.1);
        i = i + 1;
    }
    proof {
        assert(entries@.take(entries@.len() as int) =~= entries@);
    }
    let fuel: usize = entries.len();
    let mut out: Vec<(Pid, Pid)> = Vec::new();
    let mut j: usize = 0;
    while j < entries.len()
        invariant
            j <= entries@.len(),
            map@ == parent_map(entries@),
            fuel == entries@.len(),
            out@ == entries@.take(j as int).filter(child_pred(entries@, root)),
        decreases entries@.len() - j,
    {
        let e = entries[j];
        let chain = walk_reaches(&map, root, e.1, fuel);
        let current = match map.get(&e.0) {
            Some(parent) => *parent == e.1,
            None => false,
        };
        let keep = current && chain;
        proof {
            reveal(Seq::filter);
            assert(entries@.take(j + 1).drop_last() =~= entries@.take(j as int));
            assert(entries@.take(j + 1).last() == entries@[j as int]);
            assert(current == (parent_map(entries@).contains_key(e.0) && parent_map(entries@)[e.0]
                == e.1));
            assert(keep == child_pred(entries@, root)(e));
        }
        if keep {
            out.push(e);
        }
        j = j + 1;
    }
    proof {
        assert(entries@.take(entries@.len() as int) =~= entries@);
    }
    out
}

/// A field separator of a process's stat line.
pub open spec fn is_field_space(b: u8) -> bool {
    b == 32
}

/// A decimal digit byte.
pub open spec fn is_ascii_digit(b: u8) -> bool {
    48 <= b && b <= 57
}

/// The first position at or after `i` whose byte the predicate rejects
/// (or the end of the line).
pub open spec fn scan_while(s: Seq<u8>, i: int, keep: spec_fn(u8) -> bool) -> int
    decreases s.len() - i,
{
    if 0 <= i < s.len() && keep(s[i]) {
        scan_while(s, i + 1, keep)
    } else {
        i
    }
}

/// Every byte a scan ran over satisfied the predicate, and the byte it
/// stopped on (if any) did not.
pub proof fn lemma_scan_while_range(s: Seq<u8>, i: int, keep: spec_fn(u8) -> bool)
    requires
        0 <= i <= s.len(),
    ensures
        i <= scan_while(s, i, keep) <= s.len(),
        forall|k: int| i <= k < scan_while(s, i, keep) ==> keep(#[trigger] s[k]),
        scan_while(s, i, keep) < s.len() ==> !keep(s[scan_while(s, i, keep)]),
    decreases s.len() - i,
{
    if i < s.len() && keep(s[i]) {
        lemma_scan_while_range(s, i + 1, keep);
    }
}

pub open spec fn space_pred() -> spec_fn(u8) -> bool {
    |b: u8| is_field_space(b)
}

pub open spec fn non_space_pred() -> spec_fn(u8) -> bool {
    |b: u8| !is_field_space(b)
}

pub open spec fn digit_pred() -> spec_fn(u8) -> bool {
    |b: u8| is_ascii_digit(b)
}

/// The position of the last closing parenthesis of a stat line, or -1 when
/// it holds none. The command name stands parenthesized before the numeric
/// fields and may itself hold spaces, digits and parentheses, so parsing
/// starts after the last one.
pub open spec fn last_paren(s: Seq<u8>) -> int
    decreases s.len(),
{
    if s.len() == 0 {
        -1
    } else if s.last() == 41 {
        s.len() - 1
    } else {
        last_paren(s.drop_last())
    }
}

/// The value of a run of decimal digit bytes.
pub open spec fn digits_value(s: Seq<u8>, i: int, j: int) -> int
    decreases j - i,
{
    if i >= j {
        0
    } else {
        digits_value(s, i, j - 1) * 10 + (s[j - 1] - 48)
    }
}

/// Where the parent-pid field of a stat line starts: past the last closing
/// parenthesis, past the separating spaces, past the one-field process
/// state, past the spaces after it.
pub open spec fn ppid_start(s: Seq<u8>) -> int {
    scan_while(
        s,
        scan_while(s, scan_while(s, last_paren(s) + 1, space_pred()), non_space_pred()),
        space_pred(),
    )
}

/// Where the parent-pid field's digit run ends.
pub open spec fn ppid_end(s: Seq<u8>) -> int {
    scan_while(s, ppid_start(s), digit_pred())
}

/// Membership in the filtered result is exactly membership among the
/// enumeration's descendant entries: a pair is returned when and only when
/// it was enumerated and descends from the root.
pub proof fn lemma_children_membership(s: Seq<(Pid, Pid)>, root: Pid, e: (Pid, Pid))
    ensures
        s.filter(child_pred(s, root)).contains(e) <==> (s.contains(e) && is_child_entry(
            s,
            root,
            e,
        )),
{
    let pred = child_pred(s, root);
    if s.filter(pred).contains(e) {
        s.lemma_filter_contains_rev(pred, e);
        let i = choose|i: int| 0 <= i < s.filter(pred).len() && s.filter(pred)[i] == e;
        s.lemma_filter_pred(pred, i);
    }
    if s.contains(e) && is_child_entry(s, root, e) {
        let i = choose|i: int| 0 <= i < s.len() && s[i] == e;
        s.lemma_filter_contains(pred, i);
    }
}

/// A freshly spawned parent with exactly two children: when precisely the
/// entries at two positions descend from the root — each naming the root as
/// its current parent — the returned pairs are exactly those two, whatever
/// unrelated processes the enumeration also holds.
pub proof fn lemma_exactly_two_children(s: Seq<(Pid, Pid)>, root: Pid, i: int, j: int)
    requires
        0 <= i < s.len(),
        0 <= j < s.len(),
        i != j,
        s[i].1 == root,
        s[j].1 == root,
        parent_map(s).contains_key(s[i].0) && parent_map(s)[s[i].0] == root,
        parent_map(s).contains_key(s[j].0) && parent_map(s)[s[j].0] == root,
        forall|k: int|
            0 <= k < s.len() && k != i && k != j ==> !is_child_entry(s, root, #[trigger] s[k]),
    ensures
        forall|e: (Pid, Pid)| #[trigger]
            s.filter(child_pred(s, root)).contains(e) <==> (e == s[i] || e == s[j]),
{
    assert(is_child_entry(s, root, s[i]));
    assert(is_child_entry(s, root, s[j]));
    assert forall|e: (Pid, Pid)|
        #[trigger] s.filter(child_pred(s, root)).contains(e) <==> (e == s[i] || e == s[j]) by {
        lemma_children_membership(s, root, e);
        if s.contains(e) && is_child_entry(s, root, e) {
            let k = choose|k: int| 0 <= k < s.len() && s[k] == e;
            assert(e == s[i] || e == s[j]);
        }
        if e == s[i] || e == s[j] {
            assert(s.contains(e));
        }
    }
}

proof fn lemma_digits_value_nonneg(s: Seq<u8>, a: int, b: int)
    requires
        a <= b,
        forall|k: int| a <= k < b ==> is_ascii_digit(#[trigger] s[k]),
    ensures
        digits_value(s, a, b) >= 0,
    decreases b - a,
{
    if a < b {
        lemma_digits_value_nonneg(s, a, b - 1);
    }
}

/// Extending a digit run never shrinks its value.
proof fn lemma_digits_value_grows(s: Seq<u8>, a: int, b: int, c: int)
    requires
        a <= b <= c,
        forall|k: int| a <= k < c ==> is_ascii_digit(#[trigger] s[k]),
    ensures
        digits_value(s, a, b) <= digits_value(s, a, c),
    decreases c - b,
{
    if b < c {
        lemma_digits_value_grows(s, a, b, c - 1);
        lemma_digits_value_nonneg(s, a, c - 1);
    }
}

/// The first position at or after `from` holding no field separator.
fn scan_spaces(bytes: &Vec<u8>, from: usize) -> (r: usize)
    requires
        from <= bytes@.len(),
    ensures
        r == scan_while(bytes@, from as int, space_pred()),
        from <= r <= bytes@.len(),
{
    let mut i: usize = from;
    while i < bytes.len() && bytes[i] == 32
        invariant
            from <= i <= bytes@.len(),
            scan_while(bytes@, from as int, space_pred()) == scan_while(
                bytes@,
                i as int,
                space_pred(),
            ),
        decreases bytes@.len() - i,
    {
        i = i + 1;
    }
    i
}

/// The first position at or after `from` holding a field separator, or the
/// end of the line.
fn scan_field(bytes: &Vec<u8>, from: usize) -> (r: usize)
    requires
        from <= bytes@.len(),
    ensures
        r == scan_while(bytes@, from as int, non_space_pred()),
        from <= r <= bytes@.len(),
{
    let mut i: usize = from;
    while i < bytes.len() && bytes[i] != 32
        invariant
            from <= i <= bytes@.len(),
            scan_while(bytes@, from as int, non_space_pred()) == scan_while(
                bytes@,
                i as int,
                non_space_pred(),
            ),
        decreases bytes@.len() - i,
    {
        i = i + 1;
    }
    i
}

/// The end of the digit run starting at `from`.
fn scan_digits(bytes: &Vec<u8>, from: usize) -> (r: usize)
    requires
        from <= bytes@.len(),
    ensures
        r == scan_while(bytes@, from as int, digit_pred()),
        from <= r <= bytes@.len(),
{
    let mut i: usize = from;
    while i < bytes.len() && 48 <= bytes[i] && bytes[i] <= 57
        invariant
            from <= i <= bytes@.len(),
            scan_while(bytes@, from as int, digit_pred()) == scan_while(
                bytes@,
                i as int,
                digit_pred(),
            ),
        decreases bytes@.len() - i,
    {
        i = i + 1;
    }
    i
}

/// Reads the value of a digit run; `None` when it does not fit a pid.
fn parse_digits(bytes: &Vec<u8>, start: usize, end: usize) -> (r: Option<i32>)
    requires
        start <= end,
        end <= bytes@.len(),
        forall|k: int| start <= k < end ==> is_ascii_digit(#[trigger] bytes@[k]),
    ensures
        r matches Some(v) ==> v == digits_value(bytes@, start as int, end as int),
        r is None ==> digits_value(bytes@, start as int, end as int) > i32::MAX,
{
    let mut value: i64 = 0;
    let mut i: usize = start;
    while i < end
        invariant
            start <= i <= end,
            end <= bytes@.len(),
            forall|k: int| start <= k < end ==> is_ascii_digit(#[trigger] bytes@[k]),
            0 <= value <= i32::MAX,
            value == digits_value(bytes@, start as int, i as int),
        decreases end - i,
    {
        let d = bytes[i];
        value = value * 10 + ((d - 48) as i64);
        i = i + 1;
        if value > 2147483647 {
            proof {
                lemma_digits_value_grows(bytes@, start as int, i as int, end as int);
            }
            return None;
        }
    }
    Some(value as i32)
}

/// Reads the parent pid out of one process's stat line: the second
/// whitespace-separated field after the last closing parenthesis (the
/// first holds the process state; the command name before the parenthesis
/// may itself hold spaces and digits). `None` when the line holds no
/// parenthesis, no digit stands where the field should, or the value does
/// not fit a pid.
pub fn stat_ppid(bytes: &Vec<u8>) -> (r: Option<Pid>)
    ensures
        r matches Some(v) ==> last_paren(bytes@) >= 0 && ppid_end(bytes@) > ppid_start(bytes@)
            && v == digits_value(bytes@, ppid_start(bytes@), ppid_end(bytes@)),
        r is None ==> last_paren(bytes@) < 0 || ppid_end(bytes@) == ppid_start(bytes@)
            || digits_value(bytes@, ppid_start(bytes@), ppid_end(bytes@)) > i32::MAX,
{
    let mut k: usize = bytes.len();
    proof {
        assert(bytes@.take(bytes@.len() as int) =~= bytes@);
    }
    while k > 0 && bytes[k - 1] != 41
        invariant
            k <= bytes@.len(),
            last_paren(bytes@) == last_paren(bytes@.take(k as int)),
        decreases k,
    {
        proof {
            assert(bytes@.take(k as int).last() == bytes@[k - 1]);
            assert(bytes@.take(k as int).drop_last() =~= bytes@.take(k - 1));
        }
        k = k - 1;
    }
    if k == 0 {
        return None;
    }
    proof {
        assert(bytes@.take(k as int).last() == bytes@[k - 1]);
        assert(last_paren(bytes@) == k - 1);
    }
    let state_start = scan_spaces(bytes, k);
    let state_end = scan_field(bytes, state_start);
    let start = scan_spaces(bytes, state_end);
    let end = scan_digits(bytes, start);
    if end == start {
        return None;
    }
    proof {
        lemma_scan_while_range(bytes@, start as int, digit_pred());
    }
    parse_digits(bytes, start, end)
}

} // verus!
