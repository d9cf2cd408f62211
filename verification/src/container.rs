//! The container resolver's reading of the container runtime's
//! output: candidate containers, their process tables, and name
//! resolution. Every lookup failure degrades to "no container".

use vstd::prelude::*;
use vstd::string::*;
use crate::text::{dec_val, fields_of, tokens_of, trim_spec, strip_leading, views_of};
use crate::scan::field_fits;

verus! {

/// The container id a listing line denotes: the trimmed first
/// tab-separated field of a line with at least three fields.
pub open spec fn spec_parse_container_line(l: Seq<char>) -> Option<Seq<char>> {
    let fs = fields_of(l, '\t');
    if fs.len() >= 3 {
        Some(trim_spec(fs[0]))
    } else {
        None
    }
}

/// Read the container id out of one line of the running-container
/// listing; `None` for a line with too few fields.
pub fn parse_container_line(line: &str) -> (r: Option<String>)
    ensures
        match (r, spec_parse_container_line(line@)) {
            (Some(id), Some(s)) => id@ == s,
            (None, None) => true,
            _ => false,
        },
{
    let fields = crate::text::split_on(line, '\t');
    if fields.len() < 3 {
        return None;
    }
    proof {
        assert(fields@[0]@ == views_of(fields@)[0]);
    }
    Some(crate::text::trim(fields[0].as_str()))
}

/// The candidate container ids of a listing, its header line
/// excluded, in enumeration order. Which candidate wins a membership
/// tie is decided by this order, which the runtime does not fix.
pub open spec fn spec_candidates(ls: Seq<Seq<char>>) -> Seq<Seq<char>>
    decreases ls.len(),
{
    if ls.len() == 0 {
        Seq::empty()
    } else {
        spec_candidates(ls.drop_last()) + (match spec_parse_container_line(ls.last()) {
            Some(id) => seq![id],
            None => Seq::empty(),
        })
    }
}

/// The container ids named by a running-container listing, skipping
/// its header line.
pub fn parse_container_candidates(lines: &Vec<String>) -> (r: Vec<String>)
    ensures
        lines@.len() == 0 ==> r@.len() == 0,
        lines@.len() > 0 ==> views_of(r@) == spec_candidates(views_of(lines@).skip(1)),
{
    let mut r: Vec<String> = Vec::new();
    let n = lines.len();
    if n == 0 {
        return r;
    }
    let ghost body = views_of(lines@).skip(1);
    let mut i: usize = 1;
    proof {
        assert(spec_candidates(body.take(0)) =~= Seq::<Seq<char>>::empty());
        assert(views_of(r@) =~= Seq::<Seq<char>>::empty());
    }
    while i < n
        invariant
            1 <= i <= n,
            n == lines@.len(),
            body == views_of(lines@).skip(1),
            views_of(r@) == spec_candidates(body.take(i - 1)),
        decreases n - i,
    {
        proof {
            assert(body.take(i as int).drop_last() =~= body.take(i - 1));
            assert(body.take(i as int).last() == lines@[i as int]@);
        }
        match parse_container_line(lines[i].as_str()) {
            Some(id) => {
                let ghost rv = r@;
                r.push(id);
                proof {
                    assert(views_of(r@) =~= views_of(rv) + seq![r@.last()@]);
                }
            },
            None => {
                proof {
                    assert(views_of(r@) + Seq::<Seq<char>>::empty() =~= views_of(r@));
                }
            },
        }
        i = i + 1;
    }
    proof {
        assert(body.take(n - 1) =~= body);
    }
    r
}

/// Does a process-table line of the runtime name `pid` in its second
/// field?
pub open spec fn spec_top_line_has_pid(l: Seq<char>, pid: int) -> bool {
    let ts = tokens_of(l);
    ts.len() >= 2 && field_fits(ts[1], i32::MAX as int) && dec_val(ts[1]) == pid
}

/// Does the container's process table, its header line excluded,
/// list `pid`?
pub fn container_lists_pid(lines: &Vec<String>, pid: i32) -> (r: bool)
    requires
        pid >= 0,
    ensures
        r == exists|i: int|
            1 <= i < lines@.len() && spec_top_line_has_pid(#[trigger] lines@[i]@, pid as int),
{
    let n = lines.len();
    let mut i: usize = 1;
    while i < n
        invariant
            1 <= i <= n || (n == 0 && i == 1),
            n == lines@.len(),
            forall|j: int| 1 <= j < i ==> !spec_top_line_has_pid(#[trigger] lines@[j]@, pid as int),
        decreases n - i,
    {
        let ts = crate::text::tokenize(lines[i].as_str());
        if ts.len() >= 2 {
            match crate::text::parse_i32(ts[1].as_str()) {
                Some(p) => {
                    if p == pid {
                        return true;
                    }
                },
                None => {},
            }
        }
        i = i + 1;
    }
    false
}

/// The resolved name of a container: the trimmed lookup output with a
/// single leading path separator removed when the lookup succeeded,
/// the id itself otherwise.
pub open spec fn spec_container_name(ok: bool, out: Seq<char>, id: Seq<char>) -> Seq<char> {
    if ok {
        strip_leading(trim_spec(out), '/')
    } else {
        id
    }
}

/// Resolve a container's display name from the name lookup's outcome;
/// a failed lookup falls back to the id.
pub fn container_name_result(ok: bool, out: &str, id: &String) -> (r: String)
    ensures
        r@ == spec_container_name(ok, out@, id@),
{
    if ok {
        let t = crate::text::trim(out);
        crate::text::strip_leading_char(t.as_str(), '/')
    } else {
        id.clone()
    }
}

} // verus!
