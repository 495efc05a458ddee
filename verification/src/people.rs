//! Parsing of the people property: a comma-separated list of
//! `[Name](identifier)` links, each yielding a 128-bit identifier and a
//! display name (an optional person-node prefix on the name is dropped).

use vstd::prelude::*;
use vstd::string::StrSliceExecFns;
use crate::strutil::str_eq;

verus! {

/// What `uuid::Uuid::parse_str` accepts and returns, as a 128-bit value:
/// a function of the characters alone.
pub uninterp spec fn uuid_parse_of(s: Seq<char>) -> Option<u128>;

/// Relies on uuid::Uuid::parse_str (and Uuid::as_u128): which strings parse,
/// and to which value, depends only on the characters of the input.
#[verifier::external_body]
fn parse_uuid(s: &str) -> (r: Option<u128>)
    ensures
        r == uuid_parse_of(s@),
{
    uuid::Uuid::parse_str(s).ok().map(|u| u.as_u128())
}

/// The first index at which the two-character pattern `c0 c1` occurs.
pub open spec fn first_pair(s: Seq<char>, c0: char, c1: char) -> Option<int>
    decreases s.len(),
{
    if s.len() < 2 {
        None
    } else if s[0] == c0 && s[1] == c1 {
        Some(0)
    } else {
        match first_pair(s.drop_first(), c0, c1) {
            Some(j) => Some(j + 1),
            None => None,
        }
    }
}

/// The pattern `c0 c1` stands at index `j` of `s`.
pub open spec fn pair_at(s: Seq<char>, c0: char, c1: char, j: int) -> bool {
    0 <= j && j + 2 <= s.len() && s[j] == c0 && s[j + 1] == c1
}

pub proof fn lemma_first_pair_char(s: Seq<char>, c0: char, c1: char)
    ensures
        match first_pair(s, c0, c1) {
            Some(i) => pair_at(s, c0, c1, i) && forall|j: int|
                j < i ==> !#[trigger] pair_at(s, c0, c1, j),
            None => forall|j: int| !#[trigger] pair_at(s, c0, c1, j),
        },
    decreases s.len(),
{
    if s.len() >= 2 && !(s[0] == c0 && s[1] == c1) {
        let t = s.drop_first();
        lemma_first_pair_char(t, c0, c1);
        assert forall|j: int| 1 <= j && !pair_at(t, c0, c1, j - 1) implies !#[trigger] pair_at(
            s,
            c0,
            c1,
            j,
        ) by {
            if pair_at(s, c0, c1, j) {
                assert(t[j - 1] == s[j]);
                assert(t[j] == s[j + 1]);
            }
        };
        match first_pair(t, c0, c1) {
            Some(j0) => {
                assert(first_pair(s, c0, c1) == Some(j0 + 1));
                assert(t[j0] == s[j0 + 1]);
                assert(t[j0 + 1] == s[j0 + 2]);
                assert(pair_at(s, c0, c1, j0 + 1));
            },
            None => {},
        }
    }
}

/// Finds the first occurrence of the two-character pattern `c0 c1`.
pub fn find_pair(s: &str, c0: char, c1: char) -> (r: Option<usize>)
    ensures
        match r {
            Some(i) => first_pair(s@, c0, c1) == Some(i as int),
            None => first_pair(s@, c0, c1) is None,
        },
{
    proof {
        lemma_first_pair_char(s@, c0, c1);
    }
    let n = s.unicode_len();
    if n < 2 {
        return None;
    }
    let mut i: usize = 0;
    while i + 1 < n
        invariant
            s@.len() == n,
            n >= 2,
            i <= n - 1,
            forall|j: int| j < i ==> !#[trigger] pair_at(s@, c0, c1, j),
        decreases n - i,
    {
        if s.get_char(i) == c0 && s.get_char(i + 1) == c1 {
            proof {
                lemma_first_pair_char(s@, c0, c1);
                assert(pair_at(s@, c0, c1, i as int));
            }
            return Some(i);
        }
        proof {
            assert(!pair_at(s@, c0, c1, i as int));
        }
        i = i + 1;
    }
    proof {
        lemma_first_pair_char(s@, c0, c1);
        if first_pair(s@, c0, c1) is Some {
            let i0 = first_pair(s@, c0, c1).unwrap();
            assert(pair_at(s@, c0, c1, i0));
        }
    }
    None
}

/// Splits on every `", "` separator; a string without one is one part.
pub open spec fn split_parts(s: Seq<char>) -> Seq<Seq<char>>
    decreases s.len(),
    via split_parts_dec
{
    match first_pair(s, ',', ' ') {
        Some(i) => seq![s.take(i)] + split_parts(s.skip(i + 2)),
        None => seq![s],
    }
}

#[via_fn]
proof fn split_parts_dec(s: Seq<char>) {
    lemma_first_pair_char(s, ',', ' ');
}

/// One `[Name](identifier)` link, parsed: `None` when the part does not have
/// that shape or the identifier does not parse.
pub open spec fn part_person(p: Seq<char>) -> Option<(u128, Seq<char>)> {
    if p.len() == 0 || p[0] != '[' {
        None
    } else {
        match first_pair(p, ']', '(') {
            None => None,
            Some(i) => {
                if i + 2 >= p.len() || p[p.len() - 1] != ')' {
                    None
                } else {
                    match uuid_parse_of(p.subrange(i + 2, p.len() - 1)) {
                        None => None,
                        Some(u) => {
                            let name = if i >= 10 && p.subrange(1, 10) == "(Person) "@ {
                                p.subrange(10, i)
                            } else {
                                p.subrange(1, i)
                            };
                            Some((u, name))
                        },
                    }
                }
            },
        }
    }
}

/// All parts parsed as people; `None` as soon as one part is malformed.
pub open spec fn people_list(parts: Seq<Seq<char>>) -> Option<Seq<(u128, Seq<char>)>>
    decreases parts.len(),
{
    if parts.len() == 0 {
        Some(Seq::empty())
    } else {
        match part_person(parts[0]) {
            None => None,
            Some(pr) => match people_list(parts.drop_first()) {
                None => None,
                Some(rest) => Some(seq![pr] + rest),
            },
        }
    }
}

/// The people denoted by a whole property value.
pub open spec fn people_spec(s: Seq<char>) -> Option<Seq<(u128, Seq<char>)>> {
    people_list(split_parts(s))
}

/// The identifier/name view of an executable people list.
pub open spec fn people_view(v: Seq<(u128, String)>) -> Seq<(u128, Seq<char>)> {
    v.map_values(|p: (u128, String)| (p.0, p.1@))
}

fn parse_person_part(p: &str) -> (r: Option<(u128, String)>)
    ensures
        match part_person(p@) {
            Some(pr) => r is Some && r.unwrap().0 == pr.0 && r.unwrap().1@ == pr.1,
            None => r is None,
        },
{
    let lp = p.unicode_len();
    if lp == 0 || p.get_char(0) != '[' {
        return None;
    }
    match find_pair(p, ']', '(') {
        None => None,
        Some(i) => {
            proof {
                lemma_first_pair_char(p@, ']', '(');
            }
            if i + 2 >= lp {
                return None;
            }
            if p.get_char(lp - 1) != ')' {
                return None;
            }
            let id_s = p.substring_char(i + 2, lp - 1);
            match parse_uuid(id_s) {
                None => None,
                Some(u) => {
                    let name_s = if i >= 10 && str_eq(p.substring_char(1, 10), "(Person) ") {
                        p.substring_char(10, i)
                    } else {
                        p.substring_char(1, i)
                    };
                    Some((u, name_s.to_owned()))
                },
            }
        },
    }
}

/// Parses a whole people property value; `None` when any link in the list is
/// malformed or its identifier does not parse.
pub fn parse_people(s: &str) -> (r: Option<Vec<(u128, String)>>)
    ensures
        match people_spec(s@) {
            Some(ps) => r is Some && people_view(r.unwrap()@) == ps,
            None => r is None,
        },
{
    let mut acc: Vec<(u128, String)> = Vec::new();
    let mut rem: &str = s;
    let mut going = true;
    while going
        invariant
            going ==> people_spec(s@) == match people_spec(rem@) {
                Some(rest) => Some(people_view(acc@) + rest),
                None => None::<Seq<(u128, Seq<char>)>>,
            },
            !going ==> match people_spec(s@) {
                Some(ps) => people_view(acc@) == ps,
                None => false,
            },
        decreases rem@.len() + (if going {
            1int
        } else {
            0int
        }),
    {
        proof {
            lemma_first_pair_char(rem@, ',', ' ');
        }
        let (part, next_rem, last) = match find_pair(rem, ',', ' ') {
            Some(i) => {
                let lr = rem.unicode_len();
                (rem.substring_char(0, i), rem.substring_char(i + 2, lr), false)
            },
            None => (rem, rem, true),
        };
        proof {
            if !last {
                assert(part@ =~= rem@.take(first_pair(rem@, ',', ' ').unwrap()));
                assert(next_rem@ =~= rem@.skip(first_pair(rem@, ',', ' ').unwrap() + 2));
                assert(split_parts(rem@) == seq![part@] + split_parts(next_rem@));
                assert((seq![part@] + split_parts(next_rem@)).drop_first() =~= split_parts(
                    next_rem@,
                ));
                assert((seq![part@] + split_parts(next_rem@))[0] == part@);
            } else {
                assert(split_parts(rem@) == seq![rem@]);
                assert(seq![rem@].drop_first() =~= Seq::<Seq<char>>::empty());
                assert(seq![rem@][0] == rem@);
            }
        }
        match parse_person_part(part) {
            None => {
                proof {
                    assert(people_list(split_parts(rem@)) is None);
                }
                return None;
            },
            Some(pr) => {
                let ghost old_acc = acc@;
                acc.push(pr);
                proof {
                    assert(people_view(acc@) =~= people_view(old_acc) + seq![
                        (pr.0, pr.1@),
                    ]);
                }
                if last {
                    proof {
                        assert(people_list(seq![rem@].drop_first()) == Some(
                            Seq::<(u128, Seq<char>)>::empty(),
                        ));
                        assert(people_spec(rem@) == Some(seq![(pr.0, pr.1@)] + Seq::<(
                            u128,
                            Seq<char>,
                        )>::empty()));
                        assert(seq![(pr.0, pr.1@)] + Seq::<(u128, Seq<char>)>::empty() =~= seq![
                            (pr.0, pr.1@),
                        ]);
                        assert(people_view(old_acc) + seq![(pr.0, pr.1@)] =~= people_view(acc@));
                    }
                    going = false;
                } else {
                    proof {
                        let rest_spec = people_spec(next_rem@);
                        match rest_spec {
                            Some(rest) => {
                                assert(people_spec(rem@) == Some(
                                    seq![(pr.0, pr.1@)] + rest,
                                ));
                                assert(people_view(old_acc) + (seq![(pr.0, pr.1@)] + rest)
                                    =~= people_view(acc@) + rest);
                            },
                            None => {
                                assert(people_spec(rem@) is None);
                            },
                        }
                    }
                    rem = next_rem;
                }
            },
        }
    }
    proof {
        assert(people_spec(s@) is Some);
    }
    Some(acc)
}

} // verus!
