use vstd::prelude::*;
use crate::status::{parse_usize, parse_usize_spec};
use crate::text::{
    chars_of, contains, find_first, is_first_occurrence, slice_chars, string_of,
};

verus! {

/// One step of a response path: a field of an object, or an element of an array.
#[derive(Clone, Debug)]
pub enum PathStep {
    Field(String),
    Index(usize),
}

/// A step seen as plain values: an index step, the field name, the index.
pub open spec fn step_view(s: PathStep) -> (bool, Seq<char>, int) {
    match s {
        PathStep::Field(f) => (false, f@, 0),
        PathStep::Index(i) => (true, Seq::empty(), i as int),
    }
}

/// Why a response path could not be read.
#[derive(Clone, Debug)]
pub enum PathError {
    /// The text between `[` and `]` is not an index.
    InvalidIndex(String),
}

/// The parts of a text between the separators `sep`.
pub open spec fn split_parts(s: Seq<char>, sep: char) -> Seq<Seq<char>>
    decreases s.len(),
{
    if s.len() == 0 {
        seq![Seq::empty()]
    } else {
        let p = split_parts(s.drop_last(), sep);
        if s.last() == sep {
            p.push(Seq::empty())
        } else {
            p.update(p.len() - 1, p.last().push(s.last()))
        }
    }
}

/// The steps of one part: `name[3]` gives a field step (unless the name is
/// empty) and an index step; a part without brackets is a field.
pub open spec fn part_steps(part: Seq<char>) -> Option<Seq<(bool, Seq<char>, int)>> {
    if contains(part, seq!['[']) && contains(part, seq![']']) {
        let a = choose|a: int| is_first_occurrence(part, seq!['['], a);
        let b = choose|b: int| is_first_occurrence(part, seq![']'], b);
        if b < a + 1 {
            None
        } else {
            match parse_usize_spec(part.subrange(a + 1, b)) {
                Some(i) => Some(
                    (if a > 0 {
                        seq![(false, part.subrange(0, a), 0int)]
                    } else {
                        Seq::empty()
                    }).push((true, Seq::<char>::empty(), i as int)),
                ),
                None => None,
            }
        }
    } else {
        Some(seq![(false, part, 0int)])
    }
}

/// The steps of a whole path, or none when some part is malformed.
pub open spec fn path_steps(parts: Seq<Seq<char>>) -> Option<Seq<(bool, Seq<char>, int)>>
    decreases parts.len(),
{
    if parts.len() == 0 {
        Some(Seq::empty())
    } else {
        match (path_steps(parts.drop_last()), part_steps(parts.last())) {
            (Some(a), Some(b)) => Some(a + b),
            _ => None,
        }
    }
}

/// Splits a text at each `sep`.
pub fn split_on(s: &Vec<char>, sep: char) -> (r: Vec<Vec<char>>)
    ensures
        r@.map_values(|v: Vec<char>| v@) == split_parts(s@, sep),
{
    let mut cur: Vec<char> = Vec::new();
    let mut k: usize = 0;
    proof {
        assert(s@.take(0) =~= Seq::<char>::empty());
    }
    let mut done: Vec<Vec<char>> = Vec::new();
    while k < s.len()
        invariant
            k <= s@.len(),
            done@.map_values(|v: Vec<char>| v@).push(cur@) == split_parts(s@.take(k as int), sep),
        decreases s.len() - k,
    {
        let ghost before = done@.map_values(|v: Vec<char>| v@).push(cur@);
        proof {
            assert(s@.take(k + 1).drop_last() =~= s@.take(k as int));
            assert(s@.take(k + 1).last() == s@[k as int]);
        }
        if s[k] == sep {
            let finished = cur;
            done.push(finished);
            cur = Vec::new();
            proof {
                assert(done@.map_values(|v: Vec<char>| v@).push(cur@) =~= before.push(
                    Seq::<char>::empty(),
                ));
            }
        } else {
            cur.push(s[k]);
            proof {
                assert(done@.map_values(|v: Vec<char>| v@).push(cur@) =~= before.update(
                    before.len() - 1,
                    before.last().push(s@[k as int]),
                ));
            }
        }
        k = k + 1;
    }
    proof {
        assert(s@.take(s@.len() as int) =~= s@);
    }
    let ghost before = done@.map_values(|v: Vec<char>| v@);
    done.push(cur);
    proof {
        assert(done@.map_values(|v: Vec<char>| v@) =~= before.push(done@.last()@));
    }
    done
}

fn part_steps_exec(part: &Vec<char>) -> (r: Option<Vec<PathStep>>)
    ensures
        r matches Some(v) ==> part_steps(part@) == Some(v@.map_values(|s: PathStep| step_view(s))),
        r is None ==> part_steps(part@) is None,
{
    let open = vec!['['];
    let close = vec![']'];
    proof {
        assert(open@ =~= seq!['[']);
        assert(close@ =~= seq![']']);
    }
    match (find_first(part, &open), find_first(part, &close)) {
        (Some(a), Some(b)) => {
            proof {
                let ca = choose|x: int| is_first_occurrence(part@, seq!['['], x);
                let cb = choose|x: int| is_first_occurrence(part@, seq![']'], x);
                assert(is_first_occurrence(part@, seq!['['], ca));
                assert(is_first_occurrence(part@, seq![']'], cb));
                assert(ca == a);
                assert(cb == b);
            }
            if b <= a {
                return None;
            }
            let digits = slice_chars(part, a + 1, b);
            match parse_usize(&digits) {
                Some(i) => {
                    let mut v: Vec<PathStep> = Vec::new();
                    if a > 0 {
                        v.push(PathStep::Field(string_of(&slice_chars(part, 0, a))));
                    }
                    v.push(PathStep::Index(i));
                    proof {
                        let expect = (if a > 0 {
                            seq![(false, part@.subrange(0, a as int), 0int)]
                        } else {
                            Seq::empty()
                        }).push((true, Seq::<char>::empty(), i as int));
                        assert(v@.map_values(|s: PathStep| step_view(s)) =~= expect);
                    }
                    Some(v)
                },
                None => None,
            }
        },
        _ => {
            let mut v: Vec<PathStep> = Vec::new();
            v.push(PathStep::Field(string_of(part)));
            proof {
                assert(v@.map_values(|s: PathStep| step_view(s)) =~= seq![(false, part@, 0int)]);
            }
            Some(v)
        },
    }
}

/// Reads a response path such as `data.results[0].value` into its steps.
pub fn parse_json_path(path: &str) -> (r: Result<Vec<PathStep>, PathError>)
    ensures
        r matches Ok(v) ==> path_steps(split_parts(path@, '.')) == Some(
            v@.map_values(|s: PathStep| step_view(s)),
        ),
        r is Err ==> path_steps(split_parts(path@, '.')) is None,
{
    let s = chars_of(path);
    let parts = split_on(&s, '.');
    let ghost pv = parts@.map_values(|v: Vec<char>| v@);
    let mut out: Vec<PathStep> = Vec::new();
    let mut i: usize = 0;
    proof {
        assert(pv.take(0) =~= Seq::<Seq<char>>::empty());
        assert(out@.map_values(|s: PathStep| step_view(s)) =~= Seq::<(bool, Seq<char>, int)>::empty());
    }
    while i < parts.len()
        invariant
            i <= parts@.len(),
            pv == parts@.map_values(|v: Vec<char>| v@),
            pv == split_parts(path@, '.'),
            path_steps(pv.take(i as int)) == Some(out@.map_values(|s: PathStep| step_view(s))),
        decreases parts.len() - i,
    {
        proof {
            assert(pv.take(i + 1).drop_last() =~= pv.take(i as int));
            assert(pv.take(i + 1).last() == parts@[i as int]@);
        }
        match part_steps_exec(&parts[i]) {
            Some(steps) => {
                let ghost before = out@.map_values(|s: PathStep| step_view(s));
                let mut j: usize = 0;
                while j < steps.len()
                    invariant
                        j <= steps@.len(),
                        out@.map_values(|s: PathStep| step_view(s)) == before + steps@.take(
                            j as int,
                        ).map_values(|s: PathStep| step_view(s)),
                    decreases steps.len() - j,
                {
                    let st = match &steps[j] {
                        PathStep::Field(f) => PathStep::Field(f.clone()),
                        PathStep::Index(n) => PathStep::Index(*n),
                    };
                    proof {
                        assert(step_view(st) == step_view(steps@[j as int]));
                    }
                    let ghost prev_out = out@;
                    out.push(st);
                    proof {
                        assert(out@ =~= prev_out.push(st));
                        assert(out@.map_values(|s: PathStep| step_view(s)) =~= prev_out.map_values(
                            |s: PathStep| step_view(s),
                        ).push(step_view(st)));
                        assert(steps@.take(j + 1).map_values(|s: PathStep| step_view(s))
                            =~= steps@.take(j as int).map_values(|s: PathStep| step_view(s)).push(
                            step_view(steps@[j as int]),
                        ));
                        assert(out@.map_values(|s: PathStep| step_view(s)) =~= before
                            + steps@.take(j + 1).map_values(|s: PathStep| step_view(s)));
                    }
                    j = j + 1;
                }
                proof {
                    assert(steps@.take(steps@.len() as int) =~= steps@);
                }
            },
            None => {
                proof {
                    assert(pv[i as int] == parts@[i as int]@);
                    lemma_path_steps_none(pv, i as int);
                }
                return Err(PathError::InvalidIndex(string_of(&parts[i])));
            },
        }
        i = i + 1;
    }
    proof {
        assert(pv.take(pv.len() as int) =~= pv);
    }
    Ok(out)
}

proof fn lemma_path_steps_none(parts: Seq<Seq<char>>, i: int)
    requires
        0 <= i < parts.len(),
        part_steps(parts[i]) is None,
    ensures
        path_steps(parts) is None,
    decreases parts.len(),
{
    if i < parts.len() - 1 {
        lemma_path_steps_none(parts.drop_last(), i);
    }
}

} // verus!
