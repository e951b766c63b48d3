//! The environment of a service's container: its inline `KEY: value` pairs,
//! then the assignments of its env files.
use crate::text::{find_char, first_index, has_char, lemma_first_index_bounds, view_all};
use vstd::prelude::*;

verus! {

/// One inline `environment` entry; a key without a value stands for the empty
/// value.
pub struct EnvPair {
    pub key: String,
    pub value: Option<String>,
}

/// `KEY=value` for an inline pair.
pub open spec fn entry_of(p: EnvPair) -> Seq<char> {
    p.key@ + seq!['='] + match p.value {
        Some(v) => v@,
        None => Seq::empty(),
    }
}

/// A line without the carriage return that ended it, if any.
pub open spec fn strip_cr(l: Seq<char>) -> Seq<char> {
    if l.len() > 0 && l.last() == '\r' {
        l.drop_last()
    } else {
        l
    }
}

/// The lines of a text: split at each `\n` (a `\r` right before it is part of
/// the line ending); a final line ending adds no empty line.
pub open spec fn lines_of(s: Seq<char>) -> Seq<Seq<char>>
    decreases s.len(),
{
    let i = first_index(s, '\n');
    if s.len() == 0 {
        Seq::empty()
    } else if 0 <= i < s.len() {
        seq![strip_cr(s.subrange(0, i))] + lines_of(s.subrange(i + 1, s.len() as int))
    } else {
        seq![s]
    }
}

/// The lines that assign a variable, those holding a `=`, in order.
pub open spec fn assignments(lines: Seq<Seq<char>>) -> Seq<Seq<char>>
    decreases lines.len(),
{
    if lines.len() == 0 {
        Seq::empty()
    } else if lines.last().contains('=') {
        assignments(lines.drop_last()).push(lines.last())
    } else {
        assignments(lines.drop_last())
    }
}

/// The assignments of env files with the given contents, file after file.
pub open spec fn file_entries(files: Seq<Seq<char>>) -> Seq<Seq<char>>
    decreases files.len(),
{
    if files.len() == 0 {
        Seq::empty()
    } else {
        file_entries(files.drop_last()) + assignments(lines_of(files.last()))
    }
}

/// The entries of a container's environment: the inline pairs, then the env
/// files' assignments.
pub open spec fn env_entries(pairs: Seq<EnvPair>, files: Seq<Seq<char>>) -> Seq<Seq<char>> {
    pairs.map_values(|p: EnvPair| entry_of(p)) + file_entries(files)
}

fn strip_carriage_return(l: &str) -> (r: String)
    ensures
        r@ == strip_cr(l@),
{
    let n = l.unicode_len();
    if n > 0 && l.get_char(n - 1) == '\r' {
        l.substring_char(0, n - 1).to_owned()
    } else {
        l.to_owned()
    }
}

/// Splits a text into its lines.
pub fn lines(s: &str) -> (r: Vec<String>)
    ensures
        view_all(r@) == lines_of(s@),
{
    let mut out: Vec<String> = Vec::new();
    let mut rest: String = s.to_owned();
    while rest.unicode_len() > 0
        invariant
            view_all(out@) + lines_of(rest@) == lines_of(s@),
        decreases rest@.len(),
    {
        let n = rest.unicode_len();
        let i = find_char(rest.as_str(), '\n');
        proof {
            lemma_first_index_bounds(rest@, '\n');
        }
        if i < n {
            let line = strip_carriage_return(rest.as_str().substring_char(0, i));
            let tail = rest.as_str().substring_char(i + 1, n).to_owned();
            let ghost before = out@;
            out.push(line);
            assert(view_all(out@) =~= view_all(before).push(line@));
            assert(lines_of(rest@) == seq![line@] + lines_of(tail@));
            assert(view_all(out@) + lines_of(tail@) =~= view_all(before) + lines_of(rest@));
            rest = tail;
        } else {
            let ghost before = out@;
            let last = rest.clone();
            out.push(last);
            assert(view_all(out@) =~= view_all(before).push(rest@));
            assert(lines_of(rest@) == seq![rest@]);
            rest = String::new();
            assert(view_all(out@) + lines_of(rest@) =~= view_all(before) + seq![last@]);
        }
    }
    assert(lines_of(rest@) == Seq::<Seq<char>>::empty());
    out
}

/// The lines of an env file that assign a variable, in order.
pub fn file_assignments(contents: &str) -> (r: Vec<String>)
    ensures
        view_all(r@) == assignments(lines_of(contents@)),
{
    let all = lines(contents);
    let ghost lv = view_all(all@);
    let mut out: Vec<String> = Vec::new();
    let mut i: usize = 0;
    while i < all.len()
        invariant
            0 <= i <= all@.len(),
            lv == view_all(all@),
            view_all(out@) == assignments(lv.subrange(0, i as int)),
        decreases all.len() - i,
    {
        assert(lv.subrange(0, i + 1).drop_last() == lv.subrange(0, i as int));
        assert(lv.subrange(0, i + 1).last() == all@[i as int]@);
        if has_char(all[i].as_str(), '=') {
            let ghost before = out@;
            out.push(all[i].clone());
            assert(view_all(out@) =~= view_all(before).push(all@[i as int]@));
        }
        i = i + 1;
    }
    assert(lv.subrange(0, all@.len() as int) == lv);
    out
}

fn entry(p: &EnvPair) -> (r: String)
    ensures
        r@ == entry_of(*p),
{
    let eq = "=";
    proof {
        reveal_strlit("=");
    }
    assert(eq@ =~= seq!['=']);
    let mut out = p.key.clone();
    out.append(eq);
    match &p.value {
        Some(v) => out.append(v.as_str()),
        None => {
            assert(out@ =~= out@ + Seq::<char>::empty());
        },
    }
    out
}

/// The environment of a container: `KEY=value` for each inline pair, then the
/// assignment lines of each env file (given by its contents), in order; `None`
/// when that leaves no entry.
pub fn environment(pairs: &Option<Vec<EnvPair>>, env_files: &Vec<String>) -> (r: Option<Vec<String>>)
    ensures
        ({
            let all = env_entries(
                match pairs {
                    Some(p) => p@,
                    None => Seq::empty(),
                },
                view_all(env_files@),
            );
            &&& r is None <==> all.len() == 0
            &&& r matches Some(v) ==> view_all(v@) == all
        }),
{
    let ghost ps: Seq<EnvPair> = match pairs {
        Some(p) => p@,
        None => Seq::empty(),
    };
    let mut out: Vec<String> = Vec::new();
    match pairs {
        Some(p) => {
            let mut i: usize = 0;
            while i < p.len()
                invariant
                    0 <= i <= p@.len(),
                    ps == p@,
                    view_all(out@) == ps.subrange(0, i as int).map_values(|q: EnvPair| entry_of(q)),
                decreases p.len() - i,
            {
                let ghost before = out@;
                let e = entry(&p[i]);
                out.push(e);
                assert(view_all(out@) =~= view_all(before).push(entry_of(ps[i as int])));
                assert(ps.subrange(0, i + 1).map_values(|q: EnvPair| entry_of(q)) =~= ps.subrange(
                    0,
                    i as int,
                ).map_values(|q: EnvPair| entry_of(q)).push(entry_of(ps[i as int])));
                i = i + 1;
            }
            assert(ps.subrange(0, p@.len() as int) == ps);
        },
        None => {
            assert(view_all(out@) =~= ps.map_values(|q: EnvPair| entry_of(q)));
        },
    }
    let ghost inline = view_all(out@);
    let ghost fv = view_all(env_files@);
    let mut k: usize = 0;
    while k < env_files.len()
        invariant
            0 <= k <= env_files@.len(),
            fv == view_all(env_files@),
            view_all(out@) == inline + file_entries(fv.subrange(0, k as int)),
        decreases env_files.len() - k,
    {
        assert(fv.subrange(0, k + 1).drop_last() == fv.subrange(0, k as int));
        let found = file_assignments(env_files[k].as_str());
        let ghost before = out@;
        let mut j: usize = 0;
        while j < found.len()
            invariant
                0 <= j <= found@.len(),
                view_all(out@) == view_all(before) + view_all(found@).subrange(0, j as int),
            decreases found.len() - j,
        {
            let ghost b2 = out@;
            out.push(found[j].clone());
            assert(view_all(out@) =~= view_all(b2).push(found@[j as int]@));
            assert(view_all(found@).subrange(0, j + 1) =~= view_all(found@).subrange(0, j as int).push(found@[j as int]@));
            j = j + 1;
        }
        assert(view_all(found@).subrange(0, found@.len() as int) == view_all(found@));
        assert(view_all(out@) =~= inline + file_entries(fv.subrange(0, k + 1)));
        k = k + 1;
    }
    assert(fv.subrange(0, env_files@.len() as int) == fv);
    if out.len() == 0 {
        assert(view_all(out@).len() == 0);
        None
    } else {
        Some(out)
    }
}

} // verus!
