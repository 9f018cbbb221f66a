//! The worktree-listing parser and the pure core of every git-backed
//! operation: argument lists to hand to the tool and the meaning of
//! its outputs. Running the tool itself is the caller's business.

use vstd::prelude::*;
use vstd::string::StrSliceExecFns;
use vstd::string::StringExecFns;

use crate::error::ArvoreError;
use crate::strutil::opt_view;
use crate::strutil::str_eq;
use crate::strutil::strings_view;
use crate::strutil::strip_prefix;

verus! {

/// One entry of the worktree listing.
#[derive(Debug, Clone)]
pub struct WorktreeInfo {
    pub path: String,
    pub branch: Option<String>,
    pub head: String,
    pub is_bare: bool,
}

/// The mathematical value of a [`WorktreeInfo`].
pub ghost struct WorktreeRecord {
    pub path: Seq<char>,
    pub branch: Option<Seq<char>>,
    pub head: Seq<char>,
    pub is_bare: bool,
}

impl View for WorktreeInfo {
    type V = WorktreeRecord;

    open spec fn view(&self) -> WorktreeRecord {
        WorktreeRecord {
            path: self.path@,
            branch: match self.branch {
                Some(b) => Some(b@),
                None => None,
            },
            head: self.head@,
            is_bare: self.is_bare,
        }
    }
}

/// The record-in-progress while scanning a porcelain listing.
pub ghost struct ParseState {
    pub path: Option<Seq<char>>,
    pub head: Seq<char>,
    pub branch: Option<Seq<char>>,
    pub is_bare: bool,
}

/// The state before any line of a record has been seen.
pub open spec fn init_state() -> ParseState {
    ParseState { path: None, head: Seq::empty(), branch: None, is_bare: false }
}

/// The record emitted for state `st`, whose path is `p`.
pub open spec fn record_of(st: ParseState, p: Seq<char>) -> WorktreeRecord {
    WorktreeRecord { path: p, branch: st.branch, head: st.head, is_bare: st.is_bare }
}

/// How one non-blank line updates the record in progress: the four
/// recognized prefixes each set a field, any other line is ignored.
pub open spec fn step_line(st: ParseState, l: Seq<char>) -> ParseState {
    if "worktree "@.is_prefix_of(l) {
        ParseState { path: Some(l.skip("worktree "@.len() as int)), ..st }
    } else if "HEAD "@.is_prefix_of(l) {
        ParseState { head: l.skip("HEAD "@.len() as int), ..st }
    } else if "branch refs/heads/"@.is_prefix_of(l) {
        ParseState { branch: Some(l.skip("branch refs/heads/"@.len() as int)), ..st }
    } else if l == "bare"@ {
        ParseState { is_bare: true, ..st }
    } else {
        st
    }
}

/// Parses a sequence of lines from state `st`: a blank line emits the
/// record in progress (if a path was seen) and resets the state; any
/// record still in progress at the end is flushed.
pub open spec fn parse_lines(lines: Seq<Seq<char>>, st: ParseState) -> Seq<WorktreeRecord>
    decreases lines.len(),
{
    if lines.len() == 0 {
        match st.path {
            Some(p) => seq![record_of(st, p)],
            None => seq![],
        }
    } else {
        let l = lines[0];
        let rest = lines.drop_first();
        if l.len() == 0 {
            match st.path {
                Some(p) => seq![record_of(st, p)] + parse_lines(rest, init_state()),
                None => parse_lines(rest, st),
            }
        } else {
            parse_lines(rest, step_line(st, l))
        }
    }
}

/// Every line of `b` is non-blank.
pub open spec fn all_nonempty(b: Seq<Seq<char>>) -> bool {
    forall|j: int| 0 <= j < b.len() ==> b[j].len() > 0
}

/// Some line of `b` carries a worktree path.
pub open spec fn has_worktree_line(b: Seq<Seq<char>>) -> bool {
    exists|j: int| 0 <= j < b.len() && "worktree "@.is_prefix_of(#[trigger] b[j])
}

/// A well-formed porcelain block: non-blank lines, one of them a
/// worktree line.
pub open spec fn is_block(b: Seq<Seq<char>>) -> bool {
    b.len() > 0 && all_nonempty(b) && has_worktree_line(b)
}

/// The state after scanning every line of `b` from state `st`.
pub open spec fn fold_block(st: ParseState, b: Seq<Seq<char>>) -> ParseState
    decreases b.len(),
{
    if b.len() == 0 {
        st
    } else {
        fold_block(step_line(st, b[0]), b.drop_first())
    }
}

/// The record one block parses to: each field holds the last-seen
/// value of its recognized prefix within the block.
pub open spec fn block_record(b: Seq<Seq<char>>) -> WorktreeRecord {
    let st = fold_block(init_state(), b);
    record_of(st, st.path->0)
}

/// The lines of a listing whose blocks are `bs`, each block followed
/// by a blank line.
pub open spec fn blocks_join(bs: Seq<Seq<Seq<char>>>) -> Seq<Seq<char>>
    decreases bs.len(),
{
    if bs.len() == 0 {
        seq![]
    } else {
        bs[0] + seq![Seq::<char>::empty()] + blocks_join(bs.drop_first())
    }
}

/// As [`blocks_join`], but without the blank line after the final block.
pub open spec fn blocks_join_last_open(bs: Seq<Seq<Seq<char>>>) -> Seq<Seq<char>>
    decreases bs.len(),
{
    if bs.len() == 0 {
        seq![]
    } else if bs.len() == 1 {
        bs[0]
    } else {
        bs[0] + seq![Seq::<char>::empty()] + blocks_join_last_open(bs.drop_first())
    }
}

/// Scanning non-blank lines folds the state and emits nothing.
proof fn lemma_parse_nonempty_prefix(b: Seq<Seq<char>>, rest: Seq<Seq<char>>, st: ParseState)
    requires
        all_nonempty(b),
    ensures
        parse_lines(b + rest, st) == parse_lines(rest, fold_block(st, b)),
    decreases b.len(),
{
    if b.len() == 0 {
        assert(b + rest =~= rest);
    } else {
        assert((b + rest)[0] == b[0]);
        assert((b + rest).drop_first() =~= b.drop_first() + rest);
        lemma_parse_nonempty_prefix(b.drop_first(), rest, step_line(st, b[0]));
    }
}

/// The folded state carries a path exactly when one was already held
/// or some line of the block names one.
proof fn lemma_fold_path(st: ParseState, b: Seq<Seq<char>>)
    ensures
        fold_block(st, b).path is Some <==> (st.path is Some || has_worktree_line(b)),
    decreases b.len(),
{
    if b.len() > 0 {
        lemma_fold_path(step_line(st, b[0]), b.drop_first());
        if has_worktree_line(b) && !"worktree "@.is_prefix_of(b[0]) {
            let j = choose|j: int|
                0 <= j < b.len() && "worktree "@.is_prefix_of(#[trigger] b[j]);
            assert(b.drop_first()[j - 1] == b[j]);
        }
        if has_worktree_line(b.drop_first()) {
            let j = choose|j: int|
                0 <= j < b.drop_first().len() && "worktree "@.is_prefix_of(
                    #[trigger] b.drop_first()[j],
                );
            assert(b[j + 1] == b.drop_first()[j]);
        }
    }
}

/// One block followed by a blank line emits exactly its record and
/// leaves the scan back at the initial state.
proof fn lemma_parse_block(b: Seq<Seq<char>>, rest: Seq<Seq<char>>)
    requires
        is_block(b),
    ensures
        parse_lines(b + seq![Seq::<char>::empty()] + rest, init_state()) == seq![block_record(b)]
            + parse_lines(rest, init_state()),
{
    let blank_rest = seq![Seq::<char>::empty()] + rest;
    assert(b + seq![Seq::<char>::empty()] + rest =~= b + blank_rest);
    lemma_parse_nonempty_prefix(b, blank_rest, init_state());
    lemma_fold_path(init_state(), b);
    let st = fold_block(init_state(), b);
    assert(blank_rest[0].len() == 0);
    assert(blank_rest.drop_first() =~= rest);
}

/// For a well-formed listing — blocks of non-blank lines, each with a
/// worktree line and each followed by a blank line — the parse yields
/// exactly one record per block, in order, and each record's fields
/// are the block's last-seen values of the recognized prefixes.
pub proof fn lemma_record_per_block(bs: Seq<Seq<Seq<char>>>)
    requires
        forall|i: int| 0 <= i < bs.len() ==> is_block(#[trigger] bs[i]),
    ensures
        parse_lines(blocks_join(bs), init_state()) == bs.map_values(|b| block_record(b)),
        parse_lines(blocks_join(bs), init_state()).len() == bs.len(),
    decreases bs.len(),
{
    if bs.len() == 0 {
        assert(bs.map_values(|b| block_record(b)) =~= Seq::<WorktreeRecord>::empty());
    } else {
        lemma_parse_block(bs[0], blocks_join(bs.drop_first()));
        lemma_record_per_block(bs.drop_first());
        assert(bs.map_values(|b| block_record(b)) =~= seq![block_record(bs[0])]
            + bs.drop_first().map_values(|b| block_record(b)));
    }
}

/// A final block not followed by a blank line is still emitted: the
/// parser flushes the record in progress when the input ends.
pub proof fn lemma_flush_final_record(bs: Seq<Seq<Seq<char>>>)
    requires
        forall|i: int| 0 <= i < bs.len() ==> is_block(#[trigger] bs[i]),
    ensures
        parse_lines(blocks_join_last_open(bs), init_state()) == bs.map_values(
            |b| block_record(b),
        ),
    decreases bs.len(),
{
    if bs.len() == 0 {
        assert(bs.map_values(|b| block_record(b)) =~= Seq::<WorktreeRecord>::empty());
    } else if bs.len() == 1 {
        let b = bs[0];
        assert(b + Seq::<Seq<char>>::empty() =~= b);
        lemma_parse_nonempty_prefix(b, Seq::<Seq<char>>::empty(), init_state());
        lemma_fold_path(init_state(), b);
        assert(bs.map_values(|x| block_record(x)) =~= seq![block_record(b)]);
    } else {
        lemma_parse_block(bs[0], blocks_join_last_open(bs.drop_first()));
        lemma_flush_final_record(bs.drop_first());
        assert(bs.map_values(|b| block_record(b)) =~= seq![block_record(bs[0])]
            + bs.drop_first().map_values(|b| block_record(b)));
    }
}

/// An empty listing parses to no records at all.
pub proof fn lemma_parse_empty()
    ensures
        spec_parse_porcelain(Seq::<char>::empty()) == Seq::<WorktreeRecord>::empty(),
{
    assert(spec_lines(Seq::<char>::empty()) =~= Seq::<Seq<char>>::empty());
    assert(parse_lines(Seq::<Seq<char>>::empty(), init_state()) =~= Seq::<
        WorktreeRecord,
    >::empty());
}

/// A block with no branch line leaves the branch as the scan found it,
/// and a block with no `bare` line leaves the bare flag; a `bare` line
/// sets the flag for good.
proof fn lemma_fold_fields(st: ParseState, b: Seq<Seq<char>>)
    ensures
        (forall|j: int| 0 <= j < b.len() ==> !"branch refs/heads/"@.is_prefix_of(#[trigger] b[j]))
            ==> fold_block(st, b).branch == st.branch,
        (forall|j: int| 0 <= j < b.len() ==> #[trigger] b[j] != "bare"@) ==> fold_block(
            st,
            b,
        ).is_bare == st.is_bare,
        st.is_bare ==> fold_block(st, b).is_bare,
        (exists|j: int| 0 <= j < b.len() && #[trigger] b[j] == "bare"@) ==> fold_block(
            st,
            b,
        ).is_bare,
    decreases b.len(),
{
    if b.len() > 0 {
        lemma_fold_fields(step_line(st, b[0]), b.drop_first());
        assert(forall|j: int|
            0 <= j < b.drop_first().len() ==> #[trigger] b.drop_first()[j] == b[j + 1]);
        if exists|j: int| 0 <= j < b.len() && #[trigger] b[j] == "bare"@ {
            let j = choose|j: int| 0 <= j < b.len() && #[trigger] b[j] == "bare"@;
            if j > 0 {
                assert(b.drop_first()[j - 1] == "bare"@);
            } else {
                reveal_strlit("bare");
                reveal_strlit("worktree ");
                reveal_strlit("HEAD ");
                reveal_strlit("branch refs/heads/");
                assert(!"worktree "@.is_prefix_of(b[0]));
                assert(!"HEAD "@.is_prefix_of(b[0]));
                assert(!"branch refs/heads/"@.is_prefix_of(b[0]));
                assert(step_line(st, b[0]).is_bare);
            }
        }
    }
}

/// The payload of the last line of `b` that begins with `p`.
pub open spec fn last_payload(b: Seq<Seq<char>>, p: Seq<char>) -> Option<Seq<char>>
    decreases b.len(),
{
    if b.len() == 0 {
        None
    } else {
        match last_payload(b.drop_first(), p) {
            Some(x) => Some(x),
            None => if p.is_prefix_of(b[0]) {
                Some(b[0].skip(p.len() as int))
            } else {
                None
            },
        }
    }
}

proof fn lemma_prefix_first_char(p: Seq<char>, l: Seq<char>)
    requires
        p.is_prefix_of(l),
        p.len() > 0,
    ensures
        l[0] == p[0],
{
    assert(l.subrange(0, p.len() as int)[0] == l[0]);
}

/// Each field of the scanned state holds the payload of the last line
/// with the matching prefix, or what the scan started with when the
/// block has none: the parse keeps the last-seen value per prefix.
pub proof fn lemma_fold_last_seen(st: ParseState, b: Seq<Seq<char>>)
    ensures
        fold_block(st, b).path == (match last_payload(b, "worktree "@) {
            Some(x) => Some(x),
            None => st.path,
        }),
        fold_block(st, b).head == (match last_payload(b, "HEAD "@) {
            Some(x) => x,
            None => st.head,
        }),
        fold_block(st, b).branch == (match last_payload(b, "branch refs/heads/"@) {
            Some(x) => Some(x),
            None => st.branch,
        }),
    decreases b.len(),
{
    reveal_strlit("worktree ");
    reveal_strlit("HEAD ");
    reveal_strlit("branch refs/heads/");
    reveal_strlit("bare");
    if b.len() > 0 {
        lemma_fold_last_seen(step_line(st, b[0]), b.drop_first());
        let l = b[0];
        if "worktree "@.is_prefix_of(l) {
            lemma_prefix_first_char("worktree "@, l);
            if "HEAD "@.is_prefix_of(l) {
                lemma_prefix_first_char("HEAD "@, l);
            }
            if "branch refs/heads/"@.is_prefix_of(l) {
                lemma_prefix_first_char("branch refs/heads/"@, l);
            }
            assert(!"HEAD "@.is_prefix_of(l));
            assert(!"branch refs/heads/"@.is_prefix_of(l));
        } else if "HEAD "@.is_prefix_of(l) {
            lemma_prefix_first_char("HEAD "@, l);
            if "branch refs/heads/"@.is_prefix_of(l) {
                lemma_prefix_first_char("branch refs/heads/"@, l);
            }
            assert(!"branch refs/heads/"@.is_prefix_of(l));
        } else if "branch refs/heads/"@.is_prefix_of(l) {
        } else if l == "bare"@ {
            assert(!"worktree "@.is_prefix_of(l));
            assert(!"HEAD "@.is_prefix_of(l));
            assert(!"branch refs/heads/"@.is_prefix_of(l));
        }
    }
}

/// A record whose block carries a `bare` line and no branch line is
/// bare and has no branch.
pub proof fn lemma_bare_block(b: Seq<Seq<char>>)
    requires
        is_block(b),
        exists|j: int| 0 <= j < b.len() && #[trigger] b[j] == "bare"@,
        forall|j: int| 0 <= j < b.len() ==> !"branch refs/heads/"@.is_prefix_of(#[trigger] b[j]),
    ensures
        block_record(b).is_bare,
        block_record(b).branch is None,
{
    lemma_fold_fields(init_state(), b);
}

/// A record whose block carries neither a branch line nor a `bare`
/// line — a detached head — has no branch and is not bare.
pub proof fn lemma_detached_block(b: Seq<Seq<char>>)
    requires
        is_block(b),
        forall|j: int| 0 <= j < b.len() ==> #[trigger] b[j] != "bare"@,
        forall|j: int| 0 <= j < b.len() ==> !"branch refs/heads/"@.is_prefix_of(#[trigger] b[j]),
    ensures
        !block_record(b).is_bare,
        block_record(b).branch is None,
{
    lemma_fold_fields(init_state(), b);
}

/// The index of the first newline of `s`, or `s.len()` if none.
pub open spec fn first_nl(s: Seq<char>) -> int
    decreases s.len(),
{
    if s.len() == 0 {
        0
    } else if s[0] == '\n' {
        0
    } else {
        1 + first_nl(s.drop_first())
    }
}

pub proof fn lemma_first_nl(s: Seq<char>)
    ensures
        0 <= first_nl(s) <= s.len(),
        first_nl(s) < s.len() ==> s[first_nl(s)] == '\n',
        forall|j: int| 0 <= j < first_nl(s) ==> s[j] != '\n',
    decreases s.len(),
{
    if s.len() == 0 {
    } else if s[0] == '\n' {
    } else {
        lemma_first_nl(s.drop_first());
        assert forall|j: int| 0 <= j < first_nl(s) implies s[j] != '\n' by {
            if j > 0 {
                assert(s.drop_first()[j - 1] == s[j]);
            }
        }
    }
}

/// A line split at a newline loses one trailing carriage return.
pub open spec fn strip_cr(l: Seq<char>) -> Seq<char> {
    if l.len() > 0 && l.last() == '\r' {
        l.drop_last()
    } else {
        l
    }
}

/// The lines of `s`: split at each newline, a carriage return before a
/// newline dropped, and no empty line after a final newline.
pub open spec fn spec_lines(s: Seq<char>) -> Seq<Seq<char>>
    decreases s.len(),
{
    if s.len() == 0 {
        seq![]
    } else {
        let i = first_nl(s);
        if 0 <= i < s.len() {
            seq![strip_cr(s.take(i))] + spec_lines(s.skip(i + 1))
        } else {
            seq![s]
        }
    }
}

/// The records named by a porcelain worktree listing.
pub open spec fn spec_parse_porcelain(s: Seq<char>) -> Seq<WorktreeRecord> {
    parse_lines(spec_lines(s), init_state())
}

/// Splits `s` into lines, as [`spec_lines`] says.
fn split_lines<'a>(s: &'a str) -> (r: Vec<&'a str>)
    ensures
        r@.map_values(|t: &str| t@) == spec_lines(s@),
{
    let n = s.unicode_len();
    let mut r: Vec<&'a str> = Vec::new();
    let mut pos: usize = 0;
    proof {
        assert(s@.skip(0) =~= s@);
    }
    while pos < n
        invariant
            pos <= n,
            n == s@.len(),
            spec_lines(s@) == r@.map_values(|t: &str| t@) + spec_lines(s@.skip(pos as int)),
        decreases n - pos,
    {
        let ghost rem = s@.skip(pos as int);
        let ghost done = r@.map_values(|t: &str| t@);
        let mut i: usize = pos;
        while i < n && s.get_char(i) != '\n'
            invariant
                pos <= i <= n,
                n == s@.len(),
                forall|j: int| pos <= j < i ==> s@[j] != '\n',
            decreases n - i,
        {
            i += 1;
        }
        proof {
            lemma_first_nl(rem);
            assert forall|j: int| 0 <= j < i - pos implies rem[j] != '\n' by {
                assert(rem[j] == s@[pos + j]);
            }
            if i < n {
                assert(rem[i - pos] == s@[i as int]);
            }
            assert(first_nl(rem) == i - pos);
        }
        if i < n {
            // a newline at index i ends the line
            let line_end: usize = if i > pos && s.get_char(i - 1) == '\r' {
                i - 1
            } else {
                i
            };
            let line = s.substring_char(pos, line_end);
            proof {
                let l = rem.take(i - pos);
                assert(l =~= s@.subrange(pos as int, i as int));
                if i > pos && s@[i - 1] == '\r' {
                    assert(l.last() == s@[i - 1]);
                    assert(strip_cr(l) =~= s@.subrange(pos as int, line_end as int));
                } else {
                    if l.len() > 0 {
                        assert(l.last() == s@[i - 1]);
                    }
                    assert(strip_cr(l) =~= s@.subrange(pos as int, line_end as int));
                }
                assert(spec_lines(rem) == seq![strip_cr(l)] + spec_lines(rem.skip(i - pos + 1)));
                assert(rem.skip(i - pos + 1) =~= s@.skip(i + 1));
            }
            r.push(line);
            pos = i + 1;
            proof {
                assert(r@.map_values(|t: &str| t@) =~= done.push(line@));
                assert(done.push(line@) + spec_lines(s@.skip(pos as int)) =~= done + spec_lines(
                    rem,
                ));
            }
        } else {
            // no further newline: the rest is the final line
            let line = s.substring_char(pos, n);
            proof {
                assert(first_nl(rem) == rem.len());
                assert(spec_lines(rem) == seq![rem]);
                assert(rem =~= s@.subrange(pos as int, n as int));
            }
            r.push(line);
            pos = n;
            proof {
                assert(s@.skip(n as int) =~= Seq::<char>::empty());
                assert(r@.map_values(|t: &str| t@) =~= done.push(line@));
                assert(done.push(line@) + spec_lines(s@.skip(pos as int)) =~= done + spec_lines(
                    rem,
                ));
            }
        }
    }
    proof {
        assert(s@.skip(pos as int) =~= Seq::<char>::empty());
        assert(r@.map_values(|t: &str| t@) + spec_lines(s@.skip(pos as int)) =~= r@.map_values(
            |t: &str| t@,
        ));
    }
    r
}

/// Parses the porcelain worktree listing into its records, in order.
pub fn parse_worktree_porcelain(output: &str) -> (r: Vec<WorktreeInfo>)
    ensures
        r@.map_values(|w: WorktreeInfo| w@) == spec_parse_porcelain(output@),
{
    let lines = split_lines(output);
    let ghost lv = spec_lines(output@);
    let mut out: Vec<WorktreeInfo> = Vec::new();
    let mut path: Option<String> = None;
    let mut head: String = String::new();
    let mut branch: Option<String> = None;
    let mut is_bare: bool = false;
    let mut k: usize = 0;
    proof {
        assert(lv.skip(0) =~= lv);
        assert(ParseState {
            path: opt_view(path),
            head: head@,
            branch: opt_view(branch),
            is_bare,
        } =~= init_state());
    }
    while k < lines.len()
        invariant
            k <= lines.len(),
            lines@.map_values(|t: &str| t@) == lv,
            lv == spec_lines(output@),
            spec_parse_porcelain(output@) == out@.map_values(|w: WorktreeInfo| w@) + parse_lines(
                lv.skip(k as int),
                ParseState { path: opt_view(path), head: head@, branch: opt_view(branch), is_bare },
            ),
        decreases lines.len() - k,
    {
        let ghost st = ParseState {
            path: opt_view(path),
            head: head@,
            branch: opt_view(branch),
            is_bare,
        };
        let ghost done = out@.map_values(|w: WorktreeInfo| w@);
        let line = lines[k];
        proof {
            assert(lv.skip(k as int)[0] == lv[k as int]);
            assert(lv.skip(k as int).drop_first() =~= lv.skip(k as int + 1));
        }
        if line.is_empty() {
            if path.is_some() {
                let p = path.take().unwrap();
                let b = branch.take();
                let w = WorktreeInfo { path: p, branch: b, head, is_bare };
                proof {
                    assert(w@ == record_of(st, st.path->0));
                }
                out.push(w);
                head = String::new();
                is_bare = false;
                proof {
                    assert(out@.map_values(|x: WorktreeInfo| x@) =~= done.push(w@));
                    assert(ParseState {
                        path: opt_view(path),
                        head: head@,
                        branch: opt_view(branch),
                        is_bare,
                    } =~= init_state());
                    assert(done.push(w@) + parse_lines(lv.skip(k as int + 1), init_state())
                        =~= done + parse_lines(lv.skip(k as int), st));
                }
            }
        } else {
            if let Some(rest) = strip_prefix(line, "worktree ") {
                path = Some(rest.to_owned());
            } else if let Some(rest) = strip_prefix(line, "HEAD ") {
                head = rest.to_owned();
            } else if let Some(rest) = strip_prefix(line, "branch refs/heads/") {
                branch = Some(rest.to_owned());
            } else if str_eq(line, "bare") {
                is_bare = true;
            }
            proof {
                assert(ParseState {
                    path: opt_view(path),
                    head: head@,
                    branch: opt_view(branch),
                    is_bare,
                } =~= step_line(st, lv[k as int]));
            }
        }
        k += 1;
    }
    proof {
        assert(lv.skip(k as int) =~= Seq::<Seq<char>>::empty());
    }
    let ghost st = ParseState {
        path: opt_view(path),
        head: head@,
        branch: opt_view(branch),
        is_bare,
    };
    let ghost done = out@.map_values(|w: WorktreeInfo| w@);
    if path.is_some() {
        let p = path.take().unwrap();
        let w = WorktreeInfo { path: p, branch, head, is_bare };
        proof {
            assert(w@ == record_of(st, st.path->0));
        }
        out.push(w);
        proof {
            assert(out@.map_values(|x: WorktreeInfo| x@) =~= done.push(w@));
            assert(done.push(w@) =~= done + parse_lines(Seq::<Seq<char>>::empty(), st));
        }
    } else {
        proof {
            assert(done =~= done + parse_lines(Seq::<Seq<char>>::empty(), st));
        }
    }
    out
}

/// The argument list that adds a worktree at `path` for `branch_arg`,
/// creating the branch (from `base`, if given) when `new_branch` holds.
pub open spec fn spec_worktree_add_args(
    path: Seq<char>,
    branch_arg: Seq<char>,
    new_branch: bool,
    base: Option<Seq<char>>,
) -> Seq<Seq<char>> {
    if new_branch {
        let a = seq!["worktree"@, "add"@, path, "-b"@, branch_arg];
        match base {
            Some(b) => a.push(b),
            None => a,
        }
    } else {
        seq!["worktree"@, "add"@, path, branch_arg]
    }
}

/// Builds the tool arguments that add a worktree.
pub fn worktree_add(path: &str, branch_arg: &str, new_branch: bool, base: Option<&str>) -> (r: Vec<
    String,
>)
    ensures
        strings_view(r@) == spec_worktree_add_args(
            path@,
            branch_arg@,
            new_branch,
            match base {
                Some(b) => Some(b@),
                None => None,
            },
        ),
{
    let mut r: Vec<String> = Vec::new();
    r.push("worktree".to_owned());
    r.push("add".to_owned());
    r.push(path.to_owned());
    if new_branch {
        r.push("-b".to_owned());
        r.push(branch_arg.to_owned());
        if let Some(b) = base {
            r.push(b.to_owned());
        }
    } else {
        r.push(branch_arg.to_owned());
    }
    proof {
        assert(strings_view(r@) =~= spec_worktree_add_args(
            path@,
            branch_arg@,
            new_branch,
            match base {
                Some(b) => Some(b@),
                None => None,
            },
        ));
    }
    r
}

/// The argument list that removes the worktree at `path`.
pub open spec fn spec_worktree_remove_args(path: Seq<char>, force: bool) -> Seq<Seq<char>> {
    if force {
        seq!["worktree"@, "remove"@, "--force"@, path]
    } else {
        seq!["worktree"@, "remove"@, path]
    }
}

/// Builds the tool arguments that remove a worktree.
pub fn worktree_remove(path: &str, force: bool) -> (r: Vec<String>)
    ensures
        strings_view(r@) == spec_worktree_remove_args(path@, force),
{
    let mut r: Vec<String> = Vec::new();
    r.push("worktree".to_owned());
    r.push("remove".to_owned());
    if force {
        r.push("--force".to_owned());
    }
    r.push(path.to_owned());
    proof {
        assert(strings_view(r@) =~= spec_worktree_remove_args(path@, force));
    }
    r
}

/// Builds the tool arguments that prune stale worktree records.
pub fn worktree_prune() -> (r: Vec<String>)
    ensures
        strings_view(r@) == seq!["worktree"@, "prune"@],
{
    let mut r: Vec<String> = Vec::new();
    r.push("worktree".to_owned());
    r.push("prune".to_owned());
    proof {
        assert(strings_view(r@) =~= seq!["worktree"@, "prune"@]);
    }
    r
}

/// Builds the tool arguments that report a worktree's status in
/// porcelain form, run from the directory `path`.
pub fn status_porcelain(path: &str) -> (r: Vec<String>)
    ensures
        strings_view(r@) == seq!["-C"@, path@, "status"@, "--porcelain"@],
{
    let mut r: Vec<String> = Vec::new();
    r.push("-C".to_owned());
    r.push(path.to_owned());
    r.push("status".to_owned());
    r.push("--porcelain".to_owned());
    proof {
        assert(strings_view(r@) =~= seq!["-C"@, path@, "status"@, "--porcelain"@]);
    }
    r
}

/// Builds the tool arguments that fetch and prune the remotes.
pub fn fetch_prune() -> (r: Vec<String>)
    ensures
        strings_view(r@) == seq!["fetch"@, "--prune"@],
{
    let mut r: Vec<String> = Vec::new();
    r.push("fetch".to_owned());
    r.push("--prune".to_owned());
    proof {
        assert(strings_view(r@) =~= seq!["fetch"@, "--prune"@]);
    }
    r
}

/// The whitespace the branch-listing lines are trimmed of.
pub open spec fn is_wsp(c: char) -> bool {
    c == ' ' || c == '\t' || c == '\r' || c == '\n'
}

pub open spec fn drop_leading_ws(l: Seq<char>) -> Seq<char>
    decreases l.len(),
{
    if l.len() > 0 && is_wsp(l[0]) {
        drop_leading_ws(l.drop_first())
    } else {
        l
    }
}

pub open spec fn drop_trailing_ws(l: Seq<char>) -> Seq<char>
    decreases l.len(),
{
    if l.len() > 0 && is_wsp(l.last()) {
        drop_trailing_ws(l.drop_last())
    } else {
        l
    }
}

/// A line with its leading and trailing whitespace removed.
pub open spec fn trim_spec(l: Seq<char>) -> Seq<char> {
    drop_trailing_ws(drop_leading_ws(l))
}

/// A line with every leading `"* "` marker removed.
pub open spec fn strip_stars(l: Seq<char>) -> Seq<char>
    decreases l.len(),
{
    if l.len() >= 2 && l[0] == '*' && l[1] == ' ' {
        strip_stars(l.skip(2))
    } else {
        l
    }
}

proof fn lemma_drop_leading_at(s: Seq<char>, k: int)
    requires
        0 <= k <= s.len(),
        forall|j: int| 0 <= j < k ==> is_wsp(s[j]),
        k < s.len() ==> !is_wsp(s[k]),
    ensures
        drop_leading_ws(s) == s.skip(k),
    decreases k,
{
    if k == 0 {
        assert(s.skip(0) =~= s);
    } else {
        lemma_drop_leading_at(s.drop_first(), k - 1);
        assert(s.drop_first().skip(k - 1) =~= s.skip(k));
    }
}

proof fn lemma_drop_trailing_at(s: Seq<char>, k: int)
    requires
        0 <= k <= s.len(),
        forall|j: int| k <= j < s.len() ==> is_wsp(s[j]),
        k > 0 ==> !is_wsp(s[k - 1]),
    ensures
        drop_trailing_ws(s) == s.take(k),
    decreases s.len() - k,
{
    if k == s.len() {
        assert(s.take(k) =~= s);
    } else {
        assert(is_wsp(s.last()));
        lemma_drop_trailing_at(s.drop_last(), k);
        assert(s.drop_last().take(k) =~= s.take(k));
    }
}

/// Whether `c` counts as whitespace for trimming.
fn is_wsp_char(c: char) -> (r: bool)
    ensures
        r == is_wsp(c),
{
    c == ' ' || c == '\t' || c == '\r' || c == '\n'
}

/// Trims ASCII whitespace from both ends of a line.
fn trim_ws<'a>(s: &'a str) -> (r: &'a str)
    ensures
        r@ == trim_spec(s@),
{
    let n = s.unicode_len();
    let mut lo: usize = 0;
    while lo < n && is_wsp_char(s.get_char(lo))
        invariant
            lo <= n,
            n == s@.len(),
            forall|j: int| 0 <= j < lo ==> is_wsp(s@[j]),
        decreases n - lo,
    {
        lo += 1;
    }
    proof {
        lemma_drop_leading_at(s@, lo as int);
    }
    let ghost t = s@.skip(lo as int);
    let mut hi: usize = n;
    while hi > lo && is_wsp_char(s.get_char(hi - 1))
        invariant
            lo <= hi <= n,
            n == s@.len(),
            forall|j: int| hi <= j < n ==> is_wsp(s@[j]),
        decreases hi,
    {
        hi -= 1;
    }
    proof {
        assert forall|j: int| hi - lo <= j < t.len() implies is_wsp(t[j]) by {
            assert(t[j] == s@[lo + j]);
        }
        if hi > lo {
            assert(t[hi - lo - 1] == s@[hi - 1]);
        }
        lemma_drop_trailing_at(t, hi - lo);
        assert(t.take(hi - lo) =~= s@.subrange(lo as int, hi as int));
    }
    s.substring_char(lo, hi)
}

/// Removes every leading `"* "` marker from a line.
fn strip_stars_exec<'a>(s: &'a str) -> (r: &'a str)
    ensures
        r@ == strip_stars(s@),
{
    let mut t: &'a str = s;
    let mut tn = t.unicode_len();
    while tn >= 2 && t.get_char(0) == '*' && t.get_char(1) == ' '
        invariant
            tn == t@.len(),
            strip_stars(t@) == strip_stars(s@),
        decreases tn,
    {
        let next = t.substring_char(2, tn);
        proof {
            assert(next@ =~= t@.skip(2));
        }
        t = next;
        tn = tn - 2;
    }
    t
}

/// One line of the merged-branch listing, as a branch name: trimmed,
/// its current-branch marker removed.
pub open spec fn branch_line_name(l: Seq<char>) -> Seq<char> {
    strip_stars(trim_spec(l))
}

/// The branch names a merged-branch listing's lines yield, keeping
/// those that are non-empty and differ from the main branch.
pub open spec fn merged_from_lines(lines: Seq<Seq<char>>, main: Seq<char>) -> Seq<Seq<char>>
    decreases lines.len(),
{
    if lines.len() == 0 {
        seq![]
    } else {
        let c = branch_line_name(lines[0]);
        let rest = merged_from_lines(lines.drop_first(), main);
        if c.len() > 0 && c != main {
            seq![c] + rest
        } else {
            rest
        }
    }
}

/// The branches the tool reports as merged into `main_branch`.
pub open spec fn spec_merged_branches(output: Seq<char>, main: Seq<char>) -> Seq<Seq<char>> {
    merged_from_lines(spec_lines(output), main)
}

/// Reads the merged-branch listing: one branch per line, trimmed, the
/// current-branch marker removed, the main branch and blanks dropped.
pub fn merged_branches(main_branch: &str, output: &str) -> (r: Vec<String>)
    ensures
        strings_view(r@) == spec_merged_branches(output@, main_branch@),
{
    let lines = split_lines(output);
    let ghost lv = spec_lines(output@);
    let mut r: Vec<String> = Vec::new();
    let mut k: usize = 0;
    proof {
        assert(lv.skip(0) =~= lv);
    }
    while k < lines.len()
        invariant
            k <= lines.len(),
            lines@.map_values(|t: &str| t@) == lv,
            lv == spec_lines(output@),
            spec_merged_branches(output@, main_branch@) == strings_view(r@) + merged_from_lines(
                lv.skip(k as int),
                main_branch@,
            ),
        decreases lines.len() - k,
    {
        let ghost done = strings_view(r@);
        proof {
            assert(lv.skip(k as int)[0] == lv[k as int]);
            assert(lv.skip(k as int).drop_first() =~= lv.skip(k as int + 1));
        }
        let name = strip_stars_exec(trim_ws(lines[k]));
        if !name.is_empty() && !str_eq(name, main_branch) {
            r.push(name.to_owned());
            proof {
                assert(strings_view(r@) =~= done.push(name@));
                assert(done.push(name@) + merged_from_lines(lv.skip(k as int + 1), main_branch@)
                    =~= done + merged_from_lines(lv.skip(k as int), main_branch@));
            }
        }
        k += 1;
    }
    proof {
        assert(lv.skip(k as int) =~= Seq::<Seq<char>>::empty());
        assert(strings_view(r@) + merged_from_lines(Seq::<Seq<char>>::empty(), main_branch@)
            =~= strings_view(r@));
    }
    r
}

pub open spec fn strip_trailing_slashes(s: Seq<char>) -> Seq<char>
    decreases s.len(),
{
    if s.len() > 0 && s.last() == '/' {
        strip_trailing_slashes(s.drop_last())
    } else {
        s
    }
}

pub open spec fn after_last_slash(s: Seq<char>) -> Seq<char>
    decreases s.len(),
{
    if s.len() == 0 {
        s
    } else if s.last() == '/' {
        Seq::empty()
    } else {
        after_last_slash(s.drop_last()).push(s.last())
    }
}

/// The name of the repository whose top-level directory is `root`: the
/// last non-empty path segment, once trailing separators are dropped.
pub open spec fn spec_repo_name(root: Seq<char>) -> Option<Seq<char>> {
    let c = after_last_slash(strip_trailing_slashes(root));
    if c.len() == 0 {
        None
    } else {
        Some(c)
    }
}

proof fn lemma_strip_trailing_at(s: Seq<char>, k: int)
    requires
        0 <= k <= s.len(),
        forall|j: int| k <= j < s.len() ==> s[j] == '/',
        k > 0 ==> s[k - 1] != '/',
    ensures
        strip_trailing_slashes(s) == s.take(k),
    decreases s.len() - k,
{
    if k == s.len() {
        assert(s.take(k) =~= s);
    } else {
        assert(s.last() == '/');
        lemma_strip_trailing_at(s.drop_last(), k);
        assert(s.drop_last().take(k) =~= s.take(k));
    }
}

proof fn lemma_after_last_slash_at(s: Seq<char>, k: int)
    requires
        0 <= k <= s.len(),
        k > 0 ==> s[k - 1] == '/',
        forall|j: int| k <= j < s.len() ==> s[j] != '/',
    ensures
        after_last_slash(s) == s.skip(k),
    decreases s.len(),
{
    if s.len() == 0 {
        assert(s.skip(0) =~= s);
    } else if s.last() == '/' {
        assert(k == s.len());
        assert(s.skip(k) =~= Seq::<char>::empty());
    } else {
        assert(k < s.len());
        lemma_after_last_slash_at(s.drop_last(), k);
        assert(after_last_slash(s.drop_last()).push(s.last()) =~= s.skip(k));
    }
}

/// The repository's name, read from its top-level directory path.
pub fn repo_name(root: &str) -> (r: Result<String, ArvoreError>)
    ensures
        match spec_repo_name(root@) {
            Some(c) => r matches Ok(n) && n@ == c,
            None => r matches Err(e) && e matches ArvoreError::GitError(m) && m@
                == "cannot determine repo name"@,
        },
{
    let n = root.unicode_len();
    let mut hi: usize = n;
    while hi > 0 && root.get_char(hi - 1) == '/'
        invariant
            hi <= n,
            n == root@.len(),
            forall|j: int| hi <= j < n ==> root@[j] == '/',
        decreases hi,
    {
        hi -= 1;
    }
    proof {
        lemma_strip_trailing_at(root@, hi as int);
    }
    let ghost t = root@.take(hi as int);
    let mut lo: usize = hi;
    while lo > 0 && root.get_char(lo - 1) != '/'
        invariant
            lo <= hi <= n,
            n == root@.len(),
            forall|j: int| lo <= j < hi ==> root@[j] != '/',
        decreases lo,
    {
        lo -= 1;
    }
    proof {
        assert forall|j: int| lo <= j < t.len() implies t[j] != '/' by {
            assert(t[j] == root@[j]);
        }
        if lo > 0 {
            assert(t[lo - 1] == root@[lo - 1]);
        }
        lemma_after_last_slash_at(t, lo as int);
        assert(t.skip(lo as int) =~= root@.subrange(lo as int, hi as int));
    }
    if lo == hi {
        Err(ArvoreError::GitError("cannot determine repo name".to_owned()))
    } else {
        Ok(root.substring_char(lo, hi).to_owned())
    }
}

/// The full ref name of a local branch.
pub fn local_branch_ref(branch: &str) -> (r: String)
    ensures
        r@ == "refs/heads/"@ + branch@,
{
    let mut s = "refs/heads/".to_owned();
    s.append(branch);
    s
}

/// A worktree is dirty exactly when its porcelain status is non-empty.
pub fn is_dirty(status: &str) -> (r: bool)
    ensures
        r == (status@.len() > 0),
{
    !status.is_empty()
}

/// A remote branch exists exactly when listing its remote heads
/// printed something.
pub fn remote_branch_exists(ls_remote_output: &str) -> (r: bool)
    ensures
        r == (ls_remote_output@.len() > 0),
{
    !ls_remote_output.is_empty()
}

/// The caller stands inside a working tree exactly when the check
/// succeeded and answered `true`.
pub fn is_inside_worktree(check_output: Option<&str>) -> (r: bool)
    ensures
        r == (check_output matches Some(s) && s@ == "true"@),
{
    match check_output {
        Some(s) => str_eq(s, "true"),
        None => false,
    }
}

/// A local branch exists exactly when verifying its ref succeeded.
pub fn branch_exists_locally(verify_output: Option<&str>) -> (r: bool)
    ensures
        r == (verify_output is Some),
{
    verify_output.is_some()
}

/// Demands a repository: `Ok` exactly when the caller is inside one.
pub fn ensure_repo(inside: bool) -> (r: Result<(), ArvoreError>)
    ensures
        inside <==> r is Ok,
        !inside ==> (r matches Err(e) && e is NotARepo),
{
    if inside {
        Ok(())
    } else {
        Err(ArvoreError::NotARepo)
    }
}

/// The main branch, from which candidate refs were verified: local
/// `main`, then local `master`, then the two under the remote; an
/// error when none of the four exists.
pub fn main_branch(
    local_main: bool,
    local_master: bool,
    remote_main: bool,
    remote_master: bool,
) -> (r: Result<String, ArvoreError>)
    ensures
        local_main || remote_main || local_master || remote_master ==> r is Ok,
        (local_main || (!local_master && remote_main)) ==> (r matches Ok(n) && n@ == "main"@),
        (!local_main && (local_master || (!remote_main && remote_master))) ==> (r matches Ok(n)
            && n@ == "master"@),
        !(local_main || local_master || remote_main || remote_master) ==> (r matches Err(e)
            && e matches ArvoreError::GitError(m) && m@ == "cannot detect main branch (tried main, master)"@),
{
    if local_main {
        Ok("main".to_owned())
    } else if local_master {
        Ok("master".to_owned())
    } else if remote_main {
        Ok("main".to_owned())
    } else if remote_master {
        Ok("master".to_owned())
    } else {
        Err(ArvoreError::GitError("cannot detect main branch (tried main, master)".to_owned()))
    }
}

} // verus!
