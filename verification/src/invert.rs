//! The round-trip argument for the textual layer: parsing what the printer
//! wrote yields the original document tree and stops exactly at its end.

use crate::json::{
    dec_digits, digit_char, digit_val, esc_char, is_digit, print_escaped, print_json, print_list,
    print_member, print_members, print_string, JsonV,
};
use crate::parse::{
    clamp_pos, digits_val, parse_document, parse_json, parse_list, parse_members, scan_digits,
    scan_str,
};
use vstd::arithmetic::div_mod::lemma_fundamental_div_mod;
use vstd::prelude::*;

verus! {

/// A subrange equal to a concatenation splits into subranges equal to the
/// parts.
proof fn lemma_split(s: Seq<char>, i: int, a: Seq<char>, b: Seq<char>)
    requires
        0 <= i,
        i + a.len() + b.len() <= s.len(),
        s.subrange(i, i + a.len() + b.len()) == a + b,
    ensures
        s.subrange(i, i + a.len()) == a,
        s.subrange(i + a.len(), i + a.len() + b.len()) == b,
        forall|m: int| i <= m < i + a.len() + b.len() ==> #[trigger] s[m] == (a + b)[m - i],
{
    let w = s.subrange(i, i + a.len() + b.len());
    assert forall|m: int| i <= m < i + a.len() + b.len() implies #[trigger] s[m] == (a + b)[m
        - i] by {
        assert(w[m - i] == s[m]);
    }
    assert forall|m: int| 0 <= m < a.len() implies s.subrange(i, i + a.len())[m] == a[m] by {
        assert(w[m] == (a + b)[m]);
    }
    assert(s.subrange(i, i + a.len()) =~= a);
    assert forall|m: int| 0 <= m < b.len() implies s.subrange(
        i + a.len(),
        i + a.len() + b.len(),
    )[m] == b[m] by {
        assert(w[a.len() + m] == (a + b)[a.len() + m]);
    }
    assert(s.subrange(i + a.len(), i + a.len() + b.len()) =~= b);
}

/// Characters under a subrange equation can be read off one by one.
proof fn lemma_at(s: Seq<char>, i: int, p: Seq<char>)
    requires
        0 <= i,
        i + p.len() <= s.len(),
        s.subrange(i, i + p.len()) == p,
    ensures
        forall|m: int| i <= m < i + p.len() ==> #[trigger] s[m] == p[m - i],
{
    assert forall|m: int| i <= m < i + p.len() implies #[trigger] s[m] == p[m - i] by {
        assert(s.subrange(i, i + p.len())[m - i] == s[m]);
    }
}

/// A decimal rendering is never empty and is made of digits only.
proof fn lemma_dec_digits_shape(n: nat)
    ensures
        dec_digits(n).len() >= 1,
        forall|m: int| 0 <= m < dec_digits(n).len() ==> is_digit(#[trigger] dec_digits(n)[m]),
    decreases n,
{
    if n < 10 {
    } else {
        lemma_dec_digits_shape(n / 10);
        assert forall|m: int| 0 <= m < dec_digits(n).len() implies is_digit(
            #[trigger] dec_digits(n)[m],
        ) by {
            if m < dec_digits(n / 10).len() {
                assert(dec_digits(n)[m] == dec_digits(n / 10)[m]);
            } else {
                assert(dec_digits(n)[m] == digit_char(n % 10));
            }
        }
    }
}

/// Reading back a decimal rendering gives the number it was made from.
proof fn lemma_dec_digits_val(n: nat)
    ensures
        digits_val(dec_digits(n)) == n,
    decreases n,
{
    if n < 10 {
        let d = dec_digits(n);
        assert(d.subrange(0, d.len() - 1) =~= Seq::<char>::empty());
        assert(digits_val(Seq::<char>::empty()) == 0);
        assert(digit_val(digit_char(n)) == n);
    } else {
        lemma_dec_digits_val(n / 10);
        let d = dec_digits(n);
        assert(d.subrange(0, d.len() - 1) =~= dec_digits(n / 10));
        assert(d[d.len() - 1] == digit_char(n % 10));
        assert(digit_val(digit_char(n % 10)) == n % 10);
        lemma_fundamental_div_mod(n as int, 10);
    }
}

/// A digit run that sits before a non-digit (or the input's end) is scanned
/// exactly to its end.
proof fn lemma_scan_digits_to(s: Seq<char>, i: nat, j: nat)
    requires
        i <= j <= s.len(),
        forall|m: int| i <= m < j ==> is_digit(s[m]),
        j == s.len() || !is_digit(s[j as int]),
    ensures
        scan_digits(s, i) == j,
    decreases j - i,
{
    if i < j {
        lemma_scan_digits_to(s, i + 1, j);
    }
}

/// Scanning a printed string body finds the original characters and stops
/// just after the closing quote.
proof fn lemma_scan_print(t: Seq<char>, s: Seq<char>, i: nat)
    requires
        i + print_escaped(t).len() + 1 <= s.len(),
        s.subrange(i as int, (i + print_escaped(t).len() + 1) as int) == print_escaped(t) + seq!['"'],
    ensures
        scan_str(s, i) == Some((t, (i + print_escaped(t).len() + 1) as nat)),
    decreases t.len(),
{
    let e = print_escaped(t);
    lemma_at(s, i as int, e + seq!['"']);
    if t.len() == 0 {
        assert(s[i as int] == '"');
    } else {
        let t1 = t.subrange(1, t.len() as int);
        let e1 = print_escaped(t1);
        assert(e == esc_char(t[0]) + e1);
        if t[0] == '"' || t[0] == '\\' {
            assert(s[i as int] == '\\');
            assert(s[(i + 1) as int] == t[0]);
            assert(s.subrange((i + 2) as int, (i + 2 + e1.len() + 1) as int) =~= e1 + seq!['"']) by {
                assert forall|m: int| 0 <= m < e1.len() + 1 implies s.subrange(
                    (i + 2) as int,
                    (i + 2 + e1.len() + 1) as int,
                )[m] == (e1 + seq!['"'])[m] by {
                    assert(s[i + 2 + m] == (e + seq!['"'])[2 + m]);
                }
            }
            lemma_scan_print(t1, s, (i + 2) as nat);
            assert(seq![s[(i + 1) as int]] + t1 =~= t);
        } else {
            assert(s[i as int] == t[0]);
            assert(s.subrange((i + 1) as int, (i + 1 + e1.len() + 1) as int) =~= e1 + seq!['"']) by {
                assert forall|m: int| 0 <= m < e1.len() + 1 implies s.subrange(
                    (i + 1) as int,
                    (i + 1 + e1.len() + 1) as int,
                )[m] == (e1 + seq!['"'])[m] by {
                    assert(s[i + 1 + m] == (e + seq!['"'])[1 + m]);
                }
            }
            lemma_scan_print(t1, s, (i + 1) as nat);
            assert(seq![s[i as int]] + t1 =~= t);
        }
    }
}

/// A printed value is never empty, and its first character tells its kind.
proof fn lemma_print_shape(j: JsonV)
    ensures
        print_json(j).len() >= 1,
        (j is Null ==> print_json(j)[0] == 'n'),
        (j is Num ==> is_digit(print_json(j)[0])),
        (j is Str ==> print_json(j)[0] == '"'),
        (j is Arr ==> print_json(j)[0] == '['),
        (j is Obj ==> print_json(j)[0] == '{'),
{
    match j {
        JsonV::Null => {},
        JsonV::Num(n) => {
            lemma_dec_digits_shape(n as nat);
        },
        JsonV::Str(..) => {
            assert(print_json(j)[0] == '"');
        },
        JsonV::Arr(..) => {
            assert(print_json(j)[0] == '[');
        },
        JsonV::Obj(..) => {
            assert(print_json(j)[0] == '{');
        },
    }
}

/// Parsing at a printed number's start yields that number, provided the
/// character after the printed region (if any) is not a digit.
proof fn lemma_parse_print_num(n: u64, s: Seq<char>, i: nat)
    requires
        i + dec_digits(n as nat).len() <= s.len(),
        s.subrange(i as int, (i + dec_digits(n as nat).len()) as int) == dec_digits(n as nat),
        i + dec_digits(n as nat).len() == s.len() || !is_digit(
            s[(i + dec_digits(n as nat).len()) as int],
        ),
    ensures
        parse_json(s, i) == Some((JsonV::Num(n), (i + dec_digits(n as nat).len()) as nat)),
{
    let p = dec_digits(n as nat);
    lemma_at(s, i as int, p);
    lemma_dec_digits_shape(n as nat);
    let c = s[i as int];
    assert(c == p[0]);
    assert(is_digit(c));
    assert(c != 'n' && c != '"');
    assert forall|m: int| i <= m < i + p.len() implies is_digit(s[m]) by {
        assert(s[m] == p[m - i]);
    }
    lemma_scan_digits_to(s, i, (i + p.len()) as nat);
    assert(s.subrange(i as int, (i + p.len()) as int) == dec_digits(n as nat));
    lemma_dec_digits_val(n as nat);
    assert(print_json(JsonV::Num(n)) == p);
}

/// Parsing at a printed string's start yields that string.
proof fn lemma_parse_print_str(t: Seq<char>, s: Seq<char>, i: nat)
    requires
        i + print_string(t).len() <= s.len(),
        s.subrange(i as int, (i + print_string(t).len()) as int) == print_string(t),
    ensures
        parse_json(s, i) == Some((JsonV::Str(t), (i + print_string(t).len()) as nat)),
{
    let p = print_string(t);
    let e = print_escaped(t);
    assert(p == seq!['"'] + (e + seq!['"']));
    lemma_split(s, i as int, seq!['"'], e + seq!['"']);
    assert(s[i as int] == '"');
    lemma_scan_print(t, s, (i + 1) as nat);
    assert(print_json(JsonV::Str(t)) == p);
}

/// Parsing at a printed array's start yields that array.
#[verifier::rlimit(100)]
#[verifier::spinoff_prover]
proof fn lemma_parse_print_arr(j: JsonV, s: Seq<char>, i: nat)
    requires
        j is Arr,
        i + print_json(j).len() <= s.len(),
        s.subrange(i as int, (i + print_json(j).len()) as int) == print_json(j),
    ensures
        parse_json(s, i) == Some((j, (i + print_json(j).len()) as nat)),
    decreases j, 2nat,
{
    let elems = j->Arr_0;
    let p = print_json(j);
    let body = print_list(elems);
    assert(p == seq!['['] + body + seq![']']);
    assert(p == (seq!['['] + body) + seq![']']);
    lemma_split(s, i as int, seq!['['] + body, seq![']']);
    lemma_split(s, i as int, seq!['['], body);
    assert(s[i as int] == '[');
    assert(s[(i + 1 + body.len()) as int] == ']');
    assert(p.len() == body.len() + 2);
    if elems.len() == 0 {
        assert(body.len() == 0);
        assert(i + 1 < s.len());
        assert(s[(i + 1) as int] == ']');
        assert(elems =~= Seq::<JsonV>::empty());
        assert(j == JsonV::Arr(Seq::<JsonV>::empty()));
    } else {
        lemma_print_shape(elems[0]);
        assert(body[0] == print_json(elems[0])[0]);
        assert(s[(i + 1) as int] == body[0]);
        assert(s[(i + 1) as int] != ']');
        lemma_parse_list_print(elems, s, (i + 1) as nat);
        assert(parse_list(s, (i + 1) as nat) == Some((elems, (i + 1 + body.len()) as nat)));
        assert(i + 1 + body.len() < s.len());
        assert(j == JsonV::Arr(elems));
    }
}

/// Parsing at a printed object's start yields that object.
#[verifier::rlimit(100)]
#[verifier::spinoff_prover]
proof fn lemma_parse_print_obj(j: JsonV, s: Seq<char>, i: nat)
    requires
        j is Obj,
        i + print_json(j).len() <= s.len(),
        s.subrange(i as int, (i + print_json(j).len()) as int) == print_json(j),
    ensures
        parse_json(s, i) == Some((j, (i + print_json(j).len()) as nat)),
    decreases j, 2nat,
{
    let ms = j->Obj_0;
    let p = print_json(j);
    let body = print_members(ms);
    assert(p == seq!['{'] + body + seq!['}']);
    assert(p == (seq!['{'] + body) + seq!['}']);
    lemma_split(s, i as int, seq!['{'] + body, seq!['}']);
    lemma_split(s, i as int, seq!['{'], body);
    assert(s[i as int] == '{');
    assert(s[(i + 1 + body.len()) as int] == '}');
    assert(p.len() == body.len() + 2);
    if ms.len() == 0 {
        assert(body.len() == 0);
        assert(i + 1 < s.len());
        assert(s[(i + 1) as int] == '}');
        assert(ms =~= Seq::<(Seq<char>, JsonV)>::empty());
        assert(j == JsonV::Obj(Seq::<(Seq<char>, JsonV)>::empty()));
    } else {
        assert(body[0] == print_member(ms[0])[0]);
        assert(print_member(ms[0])[0] == '"');
        assert(s[(i + 1) as int] == '"');
        assert(s[(i + 1) as int] != '}');
        lemma_parse_members_print(ms, s, (i + 1) as nat);
        assert(parse_members(s, (i + 1) as nat) == Some((ms, (i + 1 + body.len()) as nat)));
        assert(i + 1 + body.len() < s.len());
        assert(j == JsonV::Obj(ms));
    }
}

/// Parsing at a printed value's start yields that value and stops at its
/// end. The character after the printed region (if any) must not be a digit,
/// so that a printed number is not run together with what follows; every
/// context in this grammar follows a value with a comma, bracket, brace or
/// the input's end.
proof fn lemma_parse_print(j: JsonV, s: Seq<char>, i: nat)
    requires
        i + print_json(j).len() <= s.len(),
        s.subrange(i as int, (i + print_json(j).len()) as int) == print_json(j),
        i + print_json(j).len() == s.len() || !is_digit(s[(i + print_json(j).len()) as int]),
    ensures
        parse_json(s, i) == Some((j, (i + print_json(j).len()) as nat)),
    decreases j, 3nat,
{
    match j {
        JsonV::Null => {
            let p = print_json(j);
            lemma_at(s, i as int, p);
            assert(s[i as int] == 'n' && s[(i + 1) as int] == 'u' && s[(i + 2) as int] == 'l'
                && s[(i + 3) as int] == 'l');
        },
        JsonV::Num(n) => {
            lemma_parse_print_num(n, s, i);
        },
        JsonV::Str(t) => {
            lemma_parse_print_str(t, s, i);
        },
        JsonV::Arr(..) => {
            lemma_parse_print_arr(j, s, i);
        },
        JsonV::Obj(..) => {
            lemma_parse_print_obj(j, s, i);
        },
    }
}

/// Parsing at a printed element list's start yields those elements and stops
/// at the closing bracket.
#[verifier::rlimit(100)]
#[verifier::spinoff_prover]
proof fn lemma_parse_list_print(elems: Seq<JsonV>, s: Seq<char>, i: nat)
    requires
        elems.len() >= 1,
        i + print_list(elems).len() < s.len(),
        s.subrange(i as int, (i + print_list(elems).len()) as int) == print_list(elems),
        s[(i + print_list(elems).len()) as int] == ']',
    ensures
        parse_list(s, i) == Some((elems, (i + print_list(elems).len()) as nat)),
    decreases elems, 1nat,
{
    let body = print_list(elems);
    let p0 = print_json(elems[0]);
    lemma_print_shape(elems[0]);
    if elems.len() == 1 {
        assert(body == p0);
        lemma_parse_print(elems[0], s, i);
        let j = (i + p0.len()) as nat;
        assert(clamp_pos(i, j, s.len()) == j);
        assert(s[j as int] == ']');
        assert(seq![elems[0]] =~= elems);
    } else {
        let rest = elems.subrange(1, elems.len() as int);
        let brest = print_list(rest);
        assert(body == p0 + seq![','] + brest);
        assert(body == p0 + (seq![','] + brest));
        lemma_split(s, i as int, p0, seq![','] + brest);
        lemma_split(s, (i + p0.len()) as int, seq![','], brest);
        lemma_at(s, (i + p0.len()) as int, seq![',']);
        assert(s[(i + p0.len()) as int] == ',');
        lemma_parse_print(elems[0], s, i);
        let j = (i + p0.len()) as nat;
        assert(clamp_pos(i, j, s.len()) == j);
        assert(s[(i + p0.len() + 1 + brest.len()) as int] == ']');
        lemma_parse_list_print(rest, s, (i + p0.len() + 1) as nat);
        assert(seq![elems[0]] + rest =~= elems);
    }
}

/// Parsing at a printed member list's start yields those members and stops
/// at the closing brace.
#[verifier::rlimit(100)]
#[verifier::spinoff_prover]
proof fn lemma_parse_members_print(ms: Seq<(Seq<char>, JsonV)>, s: Seq<char>, i: nat)
    requires
        ms.len() >= 1,
        i + print_members(ms).len() < s.len(),
        s.subrange(i as int, (i + print_members(ms).len()) as int) == print_members(ms),
        s[(i + print_members(ms).len()) as int] == '}',
    ensures
        parse_members(s, i) == Some((ms, (i + print_members(ms).len()) as nat)),
    decreases ms, 1nat,
{
    let body = print_members(ms);
    let m0 = print_member(ms[0]);
    let key = ms[0].0;
    let v = ms[0].1;
    let e = print_escaped(key);
    let pv = print_json(v);
    assert(m0 == print_string(key) + seq![':'] + pv);
    lemma_print_shape(v);
    let rest = ms.subrange(1, ms.len() as int);
    let single = ms.len() == 1;
    // the member's own region sits at i
    if single {
        assert(body == m0);
    } else {
        assert(body == m0 + seq![','] + print_members(rest));
        assert(body == m0 + (seq![','] + print_members(rest)));
        lemma_split(s, i as int, m0, seq![','] + print_members(rest));
        lemma_split(s, (i + m0.len()) as int, seq![','], print_members(rest));
    }
    assert(s.subrange(i as int, (i + m0.len()) as int) == m0);
    // split the member into key string, colon, value
    assert(m0 == (seq!['"'] + (e + seq!['"'])) + (seq![':'] + pv));
    lemma_split(s, i as int, seq!['"'] + (e + seq!['"']), seq![':'] + pv);
    lemma_split(s, i as int, seq!['"'], e + seq!['"']);
    lemma_at(s, i as int, seq!['"']);
    assert(s[i as int] == '"');
    lemma_scan_print(key, s, (i + 1) as nat);
    let jk = (i + 1 + e.len() + 1) as nat;
    assert(clamp_pos((i + 1) as nat, jk, s.len()) == jk);
    lemma_split(s, jk as int, seq![':'], pv);
    lemma_at(s, jk as int, seq![':']);
    assert(s[jk as int] == ':');
    let iv = (jk + 1) as nat;
    let jv = (iv + pv.len()) as nat;
    if single {
        assert(s[jv as int] == '}');
        lemma_parse_print(v, s, iv);
        assert(clamp_pos((jk + 1) as nat, jv, s.len()) == jv);
        assert(seq![(key, v)] =~= ms);
    } else {
        lemma_at(s, (i + m0.len()) as int, seq![',']);
        assert(s[jv as int] == ',');
        lemma_parse_print(v, s, iv);
        assert(clamp_pos((jk + 1) as nat, jv, s.len()) == jv);
        assert(s[(i + m0.len() + 1 + print_members(rest).len()) as int] == '}');
        lemma_parse_members_print(rest, s, (i + m0.len() + 1) as nat);
        assert(seq![(key, v)] + rest =~= ms);
    }
}

/// Parsing a printed document gives back exactly the printed tree.
pub proof fn lemma_document_round_trip(j: JsonV)
    ensures
        parse_document(print_json(j)) == Some(j),
{
    let s = print_json(j);
    assert(s.subrange(0, s.len() as int) =~= s);
    lemma_parse_print(j, s, 0);
}

} // verus!
