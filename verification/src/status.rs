//! Parsing of the init system's service-status report into a snapshot that
//! maps each service name to its most recently reported state.

use vstd::prelude::*;
use crate::text::{
    has_prefix, has_prefix_from, is_ws, lemma_skip_token_at, lemma_skip_ws_at, scan_token,
    scan_ws, skip_token, skip_ws, str_eq,
};

verus! {

/// The banner that opens the static-runlevel section of the report.
pub open spec fn runlevel_marker() -> Seq<char> {
    "Runlevel:"@
}

/// The banner that opens the dynamic-runlevel section of the report.
pub open spec fn dynamic_marker() -> Seq<char> {
    "Dynamic Runlevel:"@
}

/// A line contributes nothing when it is all whitespace.
pub open spec fn is_blank_line(line: Seq<char>) -> bool {
    skip_ws(line, 0) == line.len()
}

/// A line contributes nothing when, after leading whitespace, it starts
/// with one of the two runlevel banners.
pub open spec fn is_header_line(line: Seq<char>) -> bool {
    &&& skip_ws(line, 0) < line.len()
    &&& {
        let rest = line.skip(skip_ws(line, 0));
        has_prefix(rest, runlevel_marker()) || has_prefix(rest, dynamic_marker())
    }
}

/// What one line of the report contributes: the first token is the service
/// name and the third is its state; the second token, usually a bracket, is
/// ignored without inspection. Blank lines, banner lines and lines with
/// fewer than three tokens contribute nothing.
pub open spec fn line_entry(line: Seq<char>) -> Option<(Seq<char>, Seq<char>)> {
    if is_blank_line(line) || is_header_line(line) {
        None
    } else {
        let a0 = skip_ws(line, 0);
        let e0 = skip_token(line, a0);
        let a1 = skip_ws(line, e0);
        if a1 == line.len() {
            None
        } else {
            let e1 = skip_token(line, a1);
            let a2 = skip_ws(line, e1);
            if a2 == line.len() {
                None
            } else {
                let e2 = skip_token(line, a2);
                Some((line.subrange(a0, e0), line.subrange(a2, e2)))
            }
        }
    }
}

/// One line applied to a snapshot: its entry overwrites any earlier state
/// recorded for the same name.
pub open spec fn apply_line(
    m: Map<Seq<char>, Seq<char>>,
    line: Seq<char>,
) -> Map<Seq<char>, Seq<char>> {
    match line_entry(line) {
        Some(e) => m.insert(e.0, e.1),
        None => m,
    }
}

/// The index of the line break at or after `i`, or the length of `s` when
/// the last line runs to the end.
pub open spec fn line_end(s: Seq<char>, i: int) -> int
    decreases s.len() - i,
{
    if i < 0 || i >= s.len() {
        s.len() as int
    } else if s[i] == '\n' {
        i
    } else {
        line_end(s, i + 1)
    }
}

/// `line_end` never moves backwards and never passes the end.
pub proof fn lemma_line_end_bounds(s: Seq<char>, i: int)
    requires
        0 <= i <= s.len(),
    ensures
        i <= line_end(s, i) <= s.len(),
    decreases s.len() - i,
{
    if i < s.len() && s[i] != '\n' {
        lemma_line_end_bounds(s, i + 1);
    }
}

/// `line_end` lands exactly on the first line break.
pub proof fn lemma_line_end_at(s: Seq<char>, i: int, j: int)
    requires
        0 <= i <= j <= s.len(),
        forall|k: int| i <= k < j ==> s[k] != '\n',
        j == s.len() || s[j] == '\n',
    ensures
        line_end(s, i) == j,
    decreases j - i,
{
    if i < j {
        lemma_line_end_at(s, i + 1, j);
    }
}

/// The snapshot that the report text from position `i` on builds on top of
/// the entries already in `m`: lines are applied first to last, so a later
/// line wins over an earlier one with the same name.
pub open spec fn parse_from(
    s: Seq<char>,
    i: int,
    m: Map<Seq<char>, Seq<char>>,
) -> Map<Seq<char>, Seq<char>>
    decreases s.len() - i + 1,
{
    if i < 0 || i >= s.len() {
        m
    } else {
        let j = line_end(s, i);
        proof {
            lemma_line_end_bounds(s, i);
        }
        parse_from(s, j + 1, apply_line(m, s.subrange(i, j)))
    }
}

/// The name-to-state mapping that a whole report text denotes.
pub open spec fn snapshot_model(s: Seq<char>) -> Map<Seq<char>, Seq<char>> {
    parse_from(s, 0, Map::empty())
}

/// The state recorded by the last line at or after position `i` whose entry
/// names `name`, if any such line exists.
pub open spec fn last_state_from(s: Seq<char>, i: int, name: Seq<char>) -> Option<Seq<char>>
    decreases s.len() - i + 1,
{
    if i < 0 || i >= s.len() {
        None
    } else {
        let j = line_end(s, i);
        proof {
            lemma_line_end_bounds(s, i);
        }
        let rest = last_state_from(s, j + 1, name);
        if rest is Some {
            rest
        } else {
            match line_entry(s.subrange(i, j)) {
                Some(e) => if e.0 == name {
                    Some(e.1)
                } else {
                    None
                },
                None => None,
            }
        }
    }
}

/// A parsed snapshot binds `name` to the state of the last line that names
/// it; a name no line mentions keeps whatever the starting map had.
pub proof fn lemma_parse_from_lookup(
    s: Seq<char>,
    i: int,
    m: Map<Seq<char>, Seq<char>>,
    name: Seq<char>,
)
    requires
        0 <= i,
    ensures
        match last_state_from(s, i, name) {
            Some(st) => parse_from(s, i, m).contains_key(name) && parse_from(s, i, m)[name] == st,
            None => parse_from(s, i, m).contains_key(name) == m.contains_key(name) && (
            m.contains_key(name) ==> parse_from(s, i, m)[name] == m[name]),
        },
    decreases s.len() - i + 1,
{
    if i < s.len() {
        let j = line_end(s, i);
        lemma_line_end_bounds(s, i);
        lemma_parse_from_lookup(s, j + 1, apply_line(m, s.subrange(i, j)), name);
    }
}

/// Last write wins: the snapshot of a whole report binds each name to the
/// state on the last line that mentions it, and binds nothing else.
pub proof fn lemma_last_write_wins(s: Seq<char>, name: Seq<char>)
    ensures
        match last_state_from(s, 0, name) {
            Some(st) => snapshot_model(s).contains_key(name) && snapshot_model(s)[name] == st,
            None => !snapshot_model(s).contains_key(name),
        },
{
    lemma_parse_from_lookup(s, 0, Map::empty(), name);
}

/// A status line assembled from a name token, one separator token and a
/// state token, single-spaced.
pub open spec fn single_spaced(name: Seq<char>, sep: Seq<char>, state: Seq<char>) -> Seq<char> {
    name + seq![' '] + sep + seq![' '] + state
}

/// A three-token line contributes its first token as the name and its third
/// as the state, whatever the middle token holds: the separator between
/// name and state is tolerated positionally, without inspection.
pub proof fn lemma_separator_tolerated(name: Seq<char>, sep: Seq<char>, state: Seq<char>)
    requires
        name.len() > 0,
        sep.len() > 0,
        state.len() > 0,
        forall|k: int| 0 <= k < name.len() ==> !is_ws(#[trigger] name[k]),
        forall|k: int| 0 <= k < sep.len() ==> !is_ws(#[trigger] sep[k]),
        forall|k: int| 0 <= k < state.len() ==> !is_ws(#[trigger] state[k]),
        !has_prefix(single_spaced(name, sep, state), runlevel_marker()),
        !has_prefix(single_spaced(name, sep, state), dynamic_marker()),
    ensures
        line_entry(single_spaced(name, sep, state)) == Some((name, state)),
{
    let l = single_spaced(name, sep, state);
    let n0 = name.len() as int;
    let n1 = n0 + 1 + sep.len() as int;
    let n2 = l.len() as int;
    assert(l.len() == name.len() + 1 + sep.len() + 1 + state.len());
    assert forall|k: int| 0 <= k < n0 implies !is_ws(l[k]) by {
        assert(l[k] == name[k]);
    }
    assert(l[n0] == ' ');
    assert forall|k: int| n0 + 1 <= k < n1 implies !is_ws(l[k]) by {
        assert(l[k] == sep[k - n0 - 1]);
    }
    assert(l[n1] == ' ');
    assert forall|k: int| n1 + 1 <= k < n2 implies !is_ws(l[k]) by {
        assert(l[k] == state[k - n1 - 1]);
    }
    lemma_skip_ws_at(l, 0, 0);
    lemma_skip_token_at(l, 0, n0);
    lemma_skip_ws_at(l, n0, n0 + 1);
    lemma_skip_token_at(l, n0 + 1, n1);
    lemma_skip_ws_at(l, n1, n1 + 1);
    lemma_skip_token_at(l, n1 + 1, n2);
    assert(!is_blank_line(l));
    assert(l.skip(0) =~= l);
    assert(!is_header_line(l));
    assert(l.subrange(0, n0) =~= name);
    assert(l.subrange(n1 + 1, n2) =~= state);
}

/// Two status lines that differ only in their separator token parse to the
/// same entry: the parser is insensitive to what stands between a service's
/// name and its state.
pub proof fn lemma_separator_independent(
    name: Seq<char>,
    sep1: Seq<char>,
    sep2: Seq<char>,
    state: Seq<char>,
)
    requires
        name.len() > 0,
        sep1.len() > 0,
        sep2.len() > 0,
        state.len() > 0,
        forall|k: int| 0 <= k < name.len() ==> !is_ws(#[trigger] name[k]),
        forall|k: int| 0 <= k < sep1.len() ==> !is_ws(#[trigger] sep1[k]),
        forall|k: int| 0 <= k < sep2.len() ==> !is_ws(#[trigger] sep2[k]),
        forall|k: int| 0 <= k < state.len() ==> !is_ws(#[trigger] state[k]),
        !has_prefix(single_spaced(name, sep1, state), runlevel_marker()),
        !has_prefix(single_spaced(name, sep1, state), dynamic_marker()),
        !has_prefix(single_spaced(name, sep2, state), runlevel_marker()),
        !has_prefix(single_spaced(name, sep2, state), dynamic_marker()),
    ensures
        line_entry(single_spaced(name, sep1, state)) == line_entry(
            single_spaced(name, sep2, state),
        ),
        line_entry(single_spaced(name, sep1, state)) == Some((name, state)),
{
    lemma_separator_tolerated(name, sep1, state);
    lemma_separator_tolerated(name, sep2, state);
}

/// Blank lines and the two runlevel banners contribute no entry.
pub proof fn lemma_skipped_line(m: Map<Seq<char>, Seq<char>>, line: Seq<char>)
    requires
        is_blank_line(line) || is_header_line(line),
    ensures
        apply_line(m, line) == m,
{
}

/// A snapshot of service states, keyed by name; the key set is unique, and
/// an insert for a known name overwrites the state recorded for it.
pub struct StatusSnapshot {
    entries: Vec<(String, String)>,
}

/// The mapping denoted by a list of name/state pairs: later pairs win.
pub closed spec fn snap_map(es: Seq<(String, String)>) -> Map<Seq<char>, Seq<char>>
    decreases es.len(),
{
    if es.len() == 0 {
        Map::empty()
    } else {
        snap_map(es.drop_last()).insert(es.last().0@, es.last().1@)
    }
}

impl View for StatusSnapshot {
    type V = Map<Seq<char>, Seq<char>>;

    closed spec fn view(&self) -> Map<Seq<char>, Seq<char>> {
        snap_map(self.entries@)
    }
}

/// A list of pairs whose keys all differ from `name` denotes a mapping
/// without `name`.
proof fn lemma_snap_map_absent(es: Seq<(String, String)>, name: Seq<char>)
    requires
        forall|p: int| 0 <= p < es.len() ==> #[trigger] es[p].0@ != name,
    ensures
        !snap_map(es).contains_key(name),
    decreases es.len(),
{
    if es.len() > 0 {
        lemma_snap_map_absent(es.drop_last(), name);
    }
}

/// A key's value comes from its last occurrence in the list.
proof fn lemma_snap_map_found(es: Seq<(String, String)>, k: int)
    requires
        0 <= k < es.len(),
        forall|p: int| k < p < es.len() ==> #[trigger] es[p].0@ != es[k].0@,
    ensures
        snap_map(es).contains_key(es[k].0@),
        snap_map(es)[es[k].0@] == es[k].1@,
    decreases es.len(),
{
    if k + 1 < es.len() {
        lemma_snap_map_found(es.drop_last(), k);
    }
}

impl StatusSnapshot {
    /// Every name occurs at most once in the backing list.
    pub closed spec fn wf(&self) -> bool {
        forall|p: int, q: int|
            0 <= p < q < self.entries@.len() ==> self.entries@[p].0@ != self.entries@[q].0@
    }

    /// An empty snapshot.
    pub fn new() -> (r: StatusSnapshot)
        ensures
            r@ == Map::<Seq<char>, Seq<char>>::empty(),
            r.wf(),
    {
        StatusSnapshot { entries: Vec::new() }
    }

    /// Updating the pair at a key's unique position denotes an insert.
    proof fn lemma_update_is_insert(es: Seq<(String, String)>, k: int, pr: (String, String))
        requires
            0 <= k < es.len(),
            es[k].0@ == pr.0@,
            forall|p: int, q: int| 0 <= p < q < es.len() ==> es[p].0@ != es[q].0@,
        ensures
            snap_map(es.update(k, pr)) == snap_map(es).insert(pr.0@, pr.1@),
        decreases es.len(),
    {
        let es2 = es.update(k, pr);
        if k == es.len() - 1 {
            assert(es2.drop_last() =~= es.drop_last());
            assert(snap_map(es).insert(pr.0@, pr.1@) =~= snap_map(
                es.drop_last(),
            ).insert(es.last().0@, es.last().1@).insert(pr.0@, pr.1@));
            assert(snap_map(es.drop_last()).insert(es.last().0@, es.last().1@).insert(
                pr.0@,
                pr.1@,
            ) =~= snap_map(es.drop_last()).insert(pr.0@, pr.1@));
            assert(snap_map(es2) =~= snap_map(es.drop_last()).insert(pr.0@, pr.1@));
        } else {
            Self::lemma_update_is_insert(es.drop_last(), k, pr);
            assert(es2.drop_last() =~= es.drop_last().update(k, pr));
            assert(es2.last() == es.last());
            assert(es.last().0@ != pr.0@);
            assert(snap_map(es2) =~= snap_map(es.drop_last()).insert(pr.0@, pr.1@).insert(
                es.last().0@,
                es.last().1@,
            ));
            assert(snap_map(es.drop_last()).insert(pr.0@, pr.1@).insert(es.last().0@, es.last().1@)
                =~= snap_map(es.drop_last()).insert(es.last().0@, es.last().1@).insert(
                pr.0@,
                pr.1@,
            ));
        }
    }

    /// Records `state` for `name`, overwriting any earlier state.
    pub fn insert(&mut self, name: String, state: String)
        requires
            old(self).wf(),
        ensures
            final(self)@ == old(self)@.insert(name@, state@),
            final(self).wf(),
    {
        let n = self.entries.len();
        let mut k: usize = 0;
        while k < n
            invariant
                k <= n,
                n == self.entries@.len(),
                *self == *old(self),
                old(self).wf(),
                forall|p: int| 0 <= p < k ==> #[trigger] self.entries@[p].0@ != name@,
            decreases n - k,
        {
            if str_eq(self.entries[k].0.as_str(), name.as_str()) {
                proof {
                    let es = self.entries@;
                    let es2 = es.update(k as int, (name, state));
                    Self::lemma_update_is_insert(es, k as int, (name, state));
                    assert forall|p: int, q: int|
                        0 <= p < q < es2.len() implies es2[p].0@ != es2[q].0@ by {
                        assert(es[k as int].0@ == name@);
                        assert(es2[p].0@ == es[p].0@);
                        assert(es2[q].0@ == es[q].0@);
                    }
                }
                self.entries[k] = (name, state);
                return ;
            }
            k += 1;
        }
        proof {
            assert(self.entries@.push((name, state)).drop_last() =~= self.entries@);
        }
        self.entries.push((name, state));
    }

    /// The state recorded for `name`, if any.
    pub fn get<'a>(&'a self, name: &str) -> (r: Option<&'a String>)
        requires
            self.wf(),
        ensures
            match r {
                Some(st) => self@.contains_key(name@) && st@ == self@[name@],
                None => !self@.contains_key(name@),
            },
    {
        let n = self.entries.len();
        let mut k: usize = 0;
        while k < n
            invariant
                k <= n,
                n == self.entries@.len(),
                self.wf(),
                forall|p: int| 0 <= p < k ==> #[trigger] self.entries@[p].0@ != name@,
            decreases n - k,
        {
            if str_eq(self.entries[k].0.as_str(), name) {
                proof {
                    lemma_snap_map_found(self.entries@, k as int);
                }
                return Some(&self.entries[k].1);
            }
            k += 1;
        }
        proof {
            lemma_snap_map_absent(self.entries@, name@);
        }
        None
    }

    /// A unique-keyed list denotes a mapping with one key per pair.
    proof fn lemma_len(es: Seq<(String, String)>)
        requires
            forall|p: int, q: int| 0 <= p < q < es.len() ==> es[p].0@ != es[q].0@,
        ensures
            snap_map(es).dom().finite(),
            snap_map(es).dom().len() == es.len(),
        decreases es.len(),
    {
        if es.len() == 0 {
            assert(snap_map(es).dom() =~= Set::<Seq<char>>::empty());
        } else {
            Self::lemma_len(es.drop_last());
            lemma_snap_map_absent(es.drop_last(), es.last().0@);
            assert(snap_map(es).dom() =~= snap_map(es.drop_last()).dom().insert(es.last().0@));
        }
    }

    /// How many distinct names the snapshot holds.
    pub fn len(&self) -> (r: usize)
        requires
            self.wf(),
        ensures
            self@.dom().finite(),
            r == self@.dom().len(),
    {
        proof {
            Self::lemma_len(self.entries@);
        }
        self.entries.len()
    }
}

/// Applies one line of the report to the snapshot.
fn apply_line_exec(snap: &mut StatusSnapshot, line: &str)
    requires
        old(snap).wf(),
    ensures
        final(snap)@ == apply_line(old(snap)@, line@),
        final(snap).wf(),
{
    let n = line.unicode_len();
    let a0 = scan_ws(line, 0);
    if a0 == n {
        return ;
    }
    if has_prefix_from(line, a0, "Runlevel:") || has_prefix_from(line, a0, "Dynamic Runlevel:") {
        return ;
    }
    let e0 = scan_token(line, a0);
    let a1 = scan_ws(line, e0);
    if a1 == n {
        return ;
    }
    let e1 = scan_token(line, a1);
    let a2 = scan_ws(line, e1);
    if a2 == n {
        return ;
    }
    let e2 = scan_token(line, a2);
    let name = line.substring_char(a0, e0).to_owned();
    let state = line.substring_char(a2, e2).to_owned();
    snap.insert(name, state);
}

/// Parses a status report into a name-to-state snapshot. Lines are taken
/// first to last, so for a duplicated name the later line wins; blank
/// lines, runlevel banners and lines with fewer than three tokens are
/// dropped silently. Parsing never fails.
pub fn parse_services_map(stdout: &str) -> (r: StatusSnapshot)
    ensures
        r@ == snapshot_model(stdout@),
        r.wf(),
{
    let n = stdout.unicode_len();
    let mut snap = StatusSnapshot::new();
    let mut i: usize = 0;
    while i < n
        invariant
            i <= n,
            n == stdout@.len(),
            snap.wf(),
            parse_from(stdout@, i as int, snap@) == snapshot_model(stdout@),
        ensures
            snap.wf(),
            parse_from(stdout@, i as int, snap@) == snapshot_model(stdout@),
            i >= n,
        decreases n - i,
    {
        // scan to the end of the current line
        let mut j = i;
        while j < n
            invariant
                i <= j <= n,
                n == stdout@.len(),
                forall|k: int| i <= k < j ==> stdout@[k] != '\n',
            ensures
                i <= j <= n,
                forall|k: int| i <= k < j ==> stdout@[k] != '\n',
                j == n || stdout@[j as int] == '\n',
            decreases n - j,
        {
            if stdout.get_char(j) == '\n' {
                break ;
            }
            j += 1;
        }
        proof {
            lemma_line_end_at(stdout@, i as int, j as int);
        }
        let line = stdout.substring_char(i, j);
        apply_line_exec(&mut snap, line);
        if j == n {
            proof {
                assert(parse_from(stdout@, j + 1, snap@) == snap@);
            }
            return snap;
        }
        i = j + 1;
    }
    snap
}

} // verus!
