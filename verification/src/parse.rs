//! The decoder's grammar: a deterministic recursive-descent parser for the
//! textual form the writer produces, given first as spec functions and then
//! as executable functions proved to match them.

use crate::json::{digit_val, is_digit, Json, JsonV};
use vstd::prelude::*;

verus! {

/// First position at or after `i` whose character is not a decimal digit
/// (or the end of the input).
pub open spec fn scan_digits(s: Seq<char>, i: nat) -> nat
    decreases s.len() - i,
{
    if i < s.len() && is_digit(s[i as int]) {
        scan_digits(s, i + 1)
    } else {
        i
    }
}

/// The number a run of decimal digits denotes, most significant digit first.
pub open spec fn digits_val(ds: Seq<char>) -> nat
    decreases ds.len(),
{
    if ds.len() == 0 {
        0
    } else {
        digits_val(ds.subrange(0, ds.len() - 1)) * 10 + digit_val(ds[ds.len() - 1])
    }
}

/// Reads a quoted string's body starting just after the opening quote:
/// a backslash takes the next character literally, a bare quote ends the
/// body. Returns the body and the position just after the closing quote.
pub open spec fn scan_str(s: Seq<char>, i: nat) -> Option<(Seq<char>, nat)>
    decreases s.len() - i,
{
    if i >= s.len() {
        None
    } else if s[i as int] == '"' {
        Some((Seq::empty(), (i + 1) as nat))
    } else if s[i as int] == '\\' {
        if i + 1 < s.len() {
            match scan_str(s, (i + 2) as nat) {
                Some((t, j)) => Some((seq![s[i + 1 as int]] + t, j)),
                None => None,
            }
        } else {
            None
        }
    } else {
        match scan_str(s, (i + 1) as nat) {
            Some((t, j)) => Some((seq![s[i as int]] + t, j)),
            None => None,
        }
    }
}

/// Keeps a parser's returned position inside `(lo, hi]` so that the mutual
/// recursion below visibly makes progress. Every parser in this module in
/// fact returns a position in that range, so the adjustment never changes
/// a result; the executable parser proves as much.
pub open spec fn clamp_pos(lo: nat, j: nat, hi: nat) -> nat {
    if j <= lo {
        lo + 1
    } else if j > hi {
        hi
    } else {
        j
    }
}

/// Parses one document value at position `i`: `null`, a number, a quoted
/// string, an array or an object. Returns the value and the position just
/// after it.
pub open spec fn parse_json(s: Seq<char>, i: nat) -> Option<(JsonV, nat)>
    decreases s.len() - i, 0nat,
{
    if i >= s.len() {
        None
    } else {
        let c = s[i as int];
        if c == 'n' {
            if i + 4 <= s.len() && s[i + 1 as int] == 'u' && s[i + 2 as int] == 'l' && s[i + 3 as int] == 'l' {
                Some((JsonV::Null, (i + 4) as nat))
            } else {
                None
            }
        } else if c == '"' {
            match scan_str(s, (i + 1) as nat) {
                Some((t, j)) => Some((JsonV::Str(t), j)),
                None => None,
            }
        } else if is_digit(c) {
            let j = scan_digits(s, i);
            let v = digits_val(s.subrange(i as int, j as int));
            if v <= u64::MAX {
                Some((JsonV::Num(v as u64), j))
            } else {
                None
            }
        } else if c == '[' {
            if i + 1 < s.len() && s[i + 1 as int] == ']' {
                Some((JsonV::Arr(Seq::empty()), (i + 2) as nat))
            } else {
                match parse_list(s, (i + 1) as nat) {
                    Some((elems, j)) => {
                        if j < s.len() && s[j as int] == ']' {
                            Some((JsonV::Arr(elems), (j + 1) as nat))
                        } else {
                            None
                        }
                    },
                    None => None,
                }
            }
        } else if c == '{' {
            if i + 1 < s.len() && s[i + 1 as int] == '}' {
                Some((JsonV::Obj(Seq::empty()), (i + 2) as nat))
            } else {
                match parse_members(s, (i + 1) as nat) {
                    Some((ms, j)) => {
                        if j < s.len() && s[j as int] == '}' {
                            Some((JsonV::Obj(ms), (j + 1) as nat))
                        } else {
                            None
                        }
                    },
                    None => None,
                }
            }
        } else {
            None
        }
    }
}

/// Parses one or more comma-separated values.
pub open spec fn parse_list(s: Seq<char>, i: nat) -> Option<(Seq<JsonV>, nat)>
    decreases s.len() - i, 1nat,
{
    match parse_json(s, i) {
        None => None,
        Some((v, j0)) => {
            let j = clamp_pos(i, j0, s.len());
            if j < s.len() && s[j as int] == ',' {
                match parse_list(s, (j + 1) as nat) {
                    Some((rest, k)) => Some((seq![v] + rest, k)),
                    None => None,
                }
            } else {
                Some((seq![v], j))
            }
        },
    }
}

/// Parses one or more comma-separated object members, each a quoted key,
/// a colon and a value.
pub open spec fn parse_members(s: Seq<char>, i: nat) -> Option<(Seq<(Seq<char>, JsonV)>, nat)>
    decreases s.len() - i, 1nat,
{
    if i >= s.len() || s[i as int] != '"' {
        None
    } else {
        match scan_str(s, (i + 1) as nat) {
            None => None,
            Some((key, j1)) => {
                let jk = clamp_pos((i + 1) as nat, j1, s.len());
                if jk < s.len() && s[jk as int] == ':' {
                    match parse_json(s, (jk + 1) as nat) {
                        None => None,
                        Some((v, j2)) => {
                            let jv = clamp_pos((jk + 1) as nat, j2, s.len());
                            if jv < s.len() && s[jv as int] == ',' {
                                match parse_members(s, (jv + 1) as nat) {
                                    Some((rest, k)) => Some((seq![(key, v)] + rest, k)),
                                    None => None,
                                }
                            } else {
                                Some((seq![(key, v)], jv))
                            }
                        },
                    }
                } else {
                    None
                }
            },
        }
    }
}

/// Parses a whole input as one document value: the parse must consume every
/// character, else the input is rejected.
pub open spec fn parse_document(s: Seq<char>) -> Option<JsonV> {
    match parse_json(s, 0) {
        Some((j, k)) => if k == s.len() {
            Some(j)
        } else {
            None
        },
        None => None,
    }
}

/// A digit run starts at `i`, covers only digits, and ends at the input's
/// end or just before a non-digit.
pub proof fn lemma_scan_digits_props(s: Seq<char>, i: nat)
    ensures
        i <= scan_digits(s, i) <= s.len() || i > s.len(),
        forall|m: int| i <= m < scan_digits(s, i) ==> is_digit(s[m]),
        scan_digits(s, i) < s.len() ==> !is_digit(s[scan_digits(s, i) as int]),
        i < s.len() && is_digit(s[i as int]) ==> scan_digits(s, i) > i,
    decreases s.len() - i,
{
    if i < s.len() && is_digit(s[i as int]) {
        lemma_scan_digits_props(s, i + 1);
    }
}

/// The value of a digit run grows by one digit at its end.
pub proof fn lemma_digits_val_snoc(s: Seq<char>, i: int, k: int)
    requires
        0 <= i <= k < s.len(),
    ensures
        digits_val(s.subrange(i, k + 1)) == digits_val(s.subrange(i, k)) * 10 + digit_val(s[k]),
{
    let d = s.subrange(i, k + 1);
    assert(d.subrange(0, d.len() - 1) =~= s.subrange(i, k));
    assert(d[d.len() - 1] == s[k]);
}

/// The decimal value of a digit character, or ten for any other character.
fn digit_of(c: char) -> (d: u64)
    ensures
        d as nat == digit_val(c),
{
    if c == '0' {
        0
    } else if c == '1' {
        1
    } else if c == '2' {
        2
    } else if c == '3' {
        3
    } else if c == '4' {
        4
    } else if c == '5' {
        5
    } else if c == '6' {
        6
    } else if c == '7' {
        7
    } else if c == '8' {
        8
    } else if c == '9' {
        9
    } else {
        10
    }
}

/// Carries a scanned prefix over the rest of a string scan.
pub open spec fn scan_cont(prefix: Seq<char>, r: Option<(Seq<char>, nat)>) -> Option<
    (Seq<char>, nat),
> {
    match r {
        Some((t, j)) => Some((prefix + t, j)),
        None => None,
    }
}

/// Reads a quoted string's body starting just after the opening quote,
/// as [`scan_str`] describes it.
fn scan_str_at(s: &Vec<char>, i: usize) -> (r: Option<(Vec<char>, usize)>)
    ensures
        match r {
            Some((t, j)) => scan_str(s@, i as nat) == Some((t@, j as nat)) && i < j <= s@.len(),
            None => scan_str(s@, i as nat) is None,
        },
{
    let mut buf: Vec<char> = Vec::new();
    let mut j = i;
    loop
        invariant
            i <= j <= s@.len() || i > s@.len(),
            i <= j,
            scan_str(s@, i as nat) == scan_cont(buf@, scan_str(s@, j as nat)),
        decreases s@.len() - j,
    {
        if j >= s.len() {
            return None;
        }
        let c = s[j];
        if c == '"' {
            proof {
                assert(buf@ + Seq::<char>::empty() =~= buf@);
            }
            return Some((buf, j + 1));
        } else if c == '\\' {
            if j + 1 >= s.len() {
                return None;
            }
            let c2 = s[j + 1];
            proof {
                let inner = scan_str(s@, (j + 2) as nat);
                match inner {
                    Some((t, k)) => {
                        assert(buf@ + (seq![c2] + t) =~= buf@.push(c2) + t);
                    },
                    None => {},
                }
            }
            buf.push(c2);
            j = j + 2;
        } else {
            proof {
                let inner = scan_str(s@, (j + 1) as nat);
                match inner {
                    Some((t, k)) => {
                        assert(buf@ + (seq![c] + t) =~= buf@.push(c) + t);
                    },
                    None => {},
                }
            }
            buf.push(c);
            j = j + 1;
        }
    }
}

/// Parses one document value, as [`parse_json`] describes it.
pub fn parse_json_at(s: &Vec<char>, i: usize) -> (r: Option<(Json, usize)>)
    ensures
        match r {
            Some((j, k)) => parse_json(s@, i as nat) == Some((crate::json::json_view(j), k as nat))
                && i < k <= s@.len(),
            None => parse_json(s@, i as nat) is None,
        },
    decreases s@.len() - i, 0nat,
{
    if i >= s.len() {
        return None;
    }
    let c = s[i];
    if c == 'n' {
        if s.len() - i >= 4 && s[i + 1] == 'u' && s[i + 2] == 'l' && s[i + 3] == 'l' {
            Some((Json::Null, i + 4))
        } else {
            None
        }
    } else if c == '"' {
        match scan_str_at(s, i + 1) {
            Some((t, j)) => {
                let st = crate::json::chars_to_string(t);
                Some((Json::Str(st), j))
            },
            None => None,
        }
    } else if digit_of(c) < 10 {
        proof {
            lemma_scan_digits_props(s@, i as nat);
        }
        let mut j = i;
        while j < s.len() && digit_of(s[j]) < 10
            invariant
                i <= j <= s@.len(),
                scan_digits(s@, i as nat) == scan_digits(s@, j as nat),
            decreases s@.len() - j,
        {
            j = j + 1;
        }
        let ghost jend = scan_digits(s@, i as nat);
        proof {
            assert(jend == j as nat);
        }
        let mut acc: u64 = 0;
        let mut over = false;
        let mut k2 = i;
        while k2 < j
            invariant
                i <= k2 <= j <= s@.len(),
                jend == j as nat,
                jend == scan_digits(s@, i as nat),
                forall|m: int| i <= m < jend ==> is_digit(s@[m]),
                !over ==> acc as nat == digits_val(s@.subrange(i as int, k2 as int)),
                over ==> digits_val(s@.subrange(i as int, k2 as int)) > u64::MAX,
            decreases j - k2,
        {
            let d = digit_of(s[k2]);
            proof {
                lemma_digits_val_snoc(s@, i as int, k2 as int);
            }
            let ghost prev = digits_val(s@.subrange(i as int, k2 as int));
            if over {
                proof {
                    assert(prev * 10 >= prev) by (nonlinear_arith)
                        requires
                            prev >= 0,
                    ;
                }
            } else {
                match acc.checked_mul(10) {
                    Some(m) => {
                        match m.checked_add(d) {
                            Some(n) => {
                                acc = n;
                            },
                            None => {
                                over = true;
                            },
                        }
                    },
                    None => {
                        over = true;
                        proof {
                            assert(prev * 10 + digit_val(s@[k2 as int]) > u64::MAX);
                        }
                    },
                }
            }
            k2 = k2 + 1;
        }
        proof {
            assert(s@.subrange(i as int, j as int) == s@.subrange(i as int, k2 as int));
        }
        if over {
            None
        } else {
            Some((Json::Num(acc), j))
        }
    } else if c == '[' {
        if s.len() - i >= 2 && s[i + 1] == ']' {
            let out: Vec<Json> = Vec::new();
            let res = Json::Arr(out);
            proof {
                assert(crate::json::json_view(res)->Arr_0 =~= Seq::<JsonV>::empty());
            }
            Some((res, i + 2))
        } else {
            match parse_list_at(s, i + 1) {
                Some((elems, j)) => {
                    if j < s.len() && s[j] == ']' {
                        let res = Json::Arr(elems);
                        proof {
                            let sp = parse_list(s@, (i + 1) as nat);
                            assert(crate::json::json_view(res)->Arr_0 =~= sp->Some_0.0);
                        }
                        Some((res, j + 1))
                    } else {
                        None
                    }
                },
                None => None,
            }
        }
    } else if c == '{' {
        if s.len() - i >= 2 && s[i + 1] == '}' {
            let out: Vec<(String, Json)> = Vec::new();
            let res = Json::Obj(out);
            proof {
                assert(crate::json::json_view(res)->Obj_0 =~= Seq::<(Seq<char>, JsonV)>::empty());
            }
            Some((res, i + 2))
        } else {
            match parse_members_at(s, i + 1) {
                Some((ms, j)) => {
                    if j < s.len() && s[j] == '}' {
                        let res = Json::Obj(ms);
                        proof {
                            let sp = parse_members(s@, (i + 1) as nat);
                            assert(crate::json::json_view(res)->Obj_0 =~= sp->Some_0.0);
                        }
                        Some((res, j + 1))
                    } else {
                        None
                    }
                },
                None => None,
            }
        }
    } else {
        None
    }
}

/// Parses one or more comma-separated values, as [`parse_list`] describes it.
pub fn parse_list_at(s: &Vec<char>, i: usize) -> (r: Option<(Vec<Json>, usize)>)
    ensures
        match r {
            Some((out, k)) => {
                &&& parse_list(s@, i as nat) matches Some((e, kk))
                &&& kk == k as nat
                &&& i < k <= s@.len()
                &&& e.len() == out@.len()
                &&& forall|n: int| 0 <= n < out@.len() ==> e[n] == crate::json::json_view(out@[n])
            },
            None => parse_list(s@, i as nat) is None,
        },
    decreases s@.len() - i, 1nat,
{
    match parse_json_at(s, i) {
        None => None,
        Some((v, j)) => {
            proof {
                assert(clamp_pos(i as nat, j as nat, s@.len()) == j as nat);
            }
            if j < s.len() && s[j] == ',' {
                match parse_list_at(s, j + 1) {
                    None => None,
                    Some((mut rest, k)) => {
                        rest.insert(0, v);
                        Some((rest, k))
                    },
                }
            } else {
                let mut out: Vec<Json> = Vec::new();
                out.push(v);
                Some((out, j))
            }
        },
    }
}

/// Parses one or more comma-separated object members, as [`parse_members`]
/// describes it.
pub fn parse_members_at(s: &Vec<char>, i: usize) -> (r: Option<(Vec<(String, Json)>, usize)>)
    ensures
        match r {
            Some((out, k)) => {
                &&& parse_members(s@, i as nat) matches Some((e, kk))
                &&& kk == k as nat
                &&& i < k <= s@.len()
                &&& e.len() == out@.len()
                &&& forall|n: int|
                    0 <= n < out@.len() ==> e[n] == (
                        out@[n].0@,
                        crate::json::json_view(out@[n].1),
                    )
            },
            None => parse_members(s@, i as nat) is None,
        },
    decreases s@.len() - i, 1nat,
{
    if i >= s.len() || s[i] != '"' {
        return None;
    }
    match scan_str_at(s, i + 1) {
        None => None,
        Some((keybuf, j1)) => {
            proof {
                assert(clamp_pos((i + 1) as nat, j1 as nat, s@.len()) == j1 as nat);
            }
            let key = crate::json::chars_to_string(keybuf);
            if j1 < s.len() && s[j1] == ':' {
                match parse_json_at(s, j1 + 1) {
                    None => None,
                    Some((v, j2)) => {
                        proof {
                            assert(clamp_pos((j1 + 1) as nat, j2 as nat, s@.len()) == j2 as nat);
                        }
                        if j2 < s.len() && s[j2] == ',' {
                            match parse_members_at(s, j2 + 1) {
                                None => None,
                                Some((mut rest, k)) => {
                                    rest.insert(0, (key, v));
                                    Some((rest, k))
                                },
                            }
                        } else {
                            let mut out: Vec<(String, Json)> = Vec::new();
                            out.push((key, v));
                            Some((out, j2))
                        }
                    },
                }
            } else {
                None
            }
        },
    }
}

/// Parses a whole input as one document value, as [`parse_document`]
/// describes it.
pub fn parse_document_at(s: &Vec<char>) -> (r: Option<Json>)
    ensures
        match r {
            Some(j) => parse_document(s@) == Some(crate::json::json_view(j)),
            None => parse_document(s@) is None,
        },
{
    match parse_json_at(s, 0) {
        Some((j, k)) => {
            if k == s.len() {
                Some(j)
            } else {
                None
            }
        },
        None => None,
    }
}

} // verus!
