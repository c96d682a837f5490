//! A small JSON document tree: the intermediate shape between schema values
//! and their textual encoding.

use vstd::prelude::*;

verus! {

broadcast use vstd::std_specs::vec::axiom_vec_index_decreases;

/// Mathematical model of a JSON document: the deep view of [`Json`].
pub enum JsonV {
    Null,
    Num(u64),
    Str(Seq<char>),
    Arr(Seq<JsonV>),
    Obj(Seq<(Seq<char>, JsonV)>),
}

/// A JSON document tree. Arrays and objects keep their elements in order;
/// objects are plain member lists (no key deduplication).
pub enum Json {
    Null,
    Num(u64),
    Str(String),
    Arr(Vec<Json>),
    Obj(Vec<(String, Json)>),
}

/// The document tree a [`Json`] value stands for.
pub open spec fn json_view(j: Json) -> JsonV
    decreases j,
{
    match j {
        Json::Null => JsonV::Null,
        Json::Num(n) => JsonV::Num(n),
        Json::Str(s) => JsonV::Str(s@),
        Json::Arr(v) => JsonV::Arr(
            Seq::new(
                v@.len(),
                |i: int| if 0 <= i < v@.len() { json_view(v[i]) } else { JsonV::Null },
            ),
        ),
        Json::Obj(v) => JsonV::Obj(
            Seq::new(
                v@.len(),
                |i: int|
                    if 0 <= i < v@.len() {
                        (v[i].0@, json_view(v[i].1))
                    } else {
                        (Seq::empty(), JsonV::Null)
                    },
            ),
        ),
    }
}

impl DeepView for Json {
    type V = JsonV;

    open spec fn deep_view(&self) -> JsonV {
        json_view(*self)
    }
}

/// Relies on String::from_iter: collecting characters into a string keeps
/// exactly those characters in order.
#[verifier::external_body]
pub fn chars_to_string(v: Vec<char>) -> (s: String)
    ensures
        s@ == v@,
{
    v.into_iter().collect()
}

/// True of the ten decimal digit characters.
pub open spec fn is_digit(c: char) -> bool {
    digit_val(c) < 10
}

/// The value of a decimal digit character; ten for any other character.
pub open spec fn digit_val(c: char) -> nat {
    if c == '0' {
        0
    } else if c == '1' {
        1
    } else if c == '2' {
        2
    } else if c == '3' {
        3
    } else if c == '4' {
        4
    } else if c == '5' {
        5
    } else if c == '6' {
        6
    } else if c == '7' {
        7
    } else if c == '8' {
        8
    } else if c == '9' {
        9
    } else {
        10
    }
}

/// The decimal digit character for a value below ten.
pub open spec fn digit_char(d: nat) -> char {
    if d == 0 {
        '0'
    } else if d == 1 {
        '1'
    } else if d == 2 {
        '2'
    } else if d == 3 {
        '3'
    } else if d == 4 {
        '4'
    } else if d == 5 {
        '5'
    } else if d == 6 {
        '6'
    } else if d == 7 {
        '7'
    } else if d == 8 {
        '8'
    } else {
        '9'
    }
}

/// Canonical decimal rendering of a number, most significant digit first,
/// with no leading zeros.
pub open spec fn dec_digits(n: nat) -> Seq<char>
    decreases n,
{
    if n < 10 {
        seq![digit_char(n)]
    } else {
        dec_digits(n / 10) + seq![digit_char(n % 10)]
    }
}

/// How one character is written inside a quoted string: a quote or a
/// backslash gets a backslash before it, every other character stands alone.
pub open spec fn esc_char(c: char) -> Seq<char> {
    if c == '"' || c == '\\' {
        seq!['\\', c]
    } else {
        seq![c]
    }
}

/// The body of a quoted string: each character escaped as needed.
pub open spec fn print_escaped(s: Seq<char>) -> Seq<char>
    decreases s.len(),
{
    if s.len() == 0 {
        Seq::empty()
    } else {
        esc_char(s[0]) + print_escaped(s.subrange(1, s.len() as int))
    }
}

/// A quoted string: the escaped body between two quote characters.
pub open spec fn print_string(s: Seq<char>) -> Seq<char> {
    seq!['"'] + print_escaped(s) + seq!['"']
}

/// The textual rendering of a document tree: the specification the
/// executable writer is proved against, and the decoder is proved to invert.
pub open spec fn print_json(j: JsonV) -> Seq<char>
    decreases j, 0nat,
{
    match j {
        JsonV::Null => seq!['n', 'u', 'l', 'l'],
        JsonV::Num(n) => dec_digits(n as nat),
        JsonV::Str(s) => print_string(s),
        JsonV::Arr(elems) => seq!['['] + print_list(elems) + seq![']'],
        JsonV::Obj(ms) => seq!['{'] + print_members(ms) + seq!['}'],
    }
}

/// Array elements joined by commas.
pub open spec fn print_list(elems: Seq<JsonV>) -> Seq<char>
    decreases elems, 1nat,
{
    if elems.len() == 0 {
        Seq::empty()
    } else if elems.len() == 1 {
        print_json(elems[0])
    } else {
        print_json(elems[0]) + seq![','] + print_list(elems.subrange(1, elems.len() as int))
    }
}

/// Object members (quoted key, colon, value) joined by commas.
pub open spec fn print_members(ms: Seq<(Seq<char>, JsonV)>) -> Seq<char>
    decreases ms, 1nat,
{
    if ms.len() == 0 {
        Seq::empty()
    } else if ms.len() == 1 {
        print_member(ms[0])
    } else {
        print_member(ms[0]) + seq![','] + print_members(ms.subrange(1, ms.len() as int))
    }
}

/// One object member.
pub open spec fn print_member(m: (Seq<char>, JsonV)) -> Seq<char>
    decreases m,
{
    print_string(m.0) + seq![':'] + print_json(m.1)
}

/// Appending one element extends the printed list by a comma (when the list
/// was not empty) and the element's rendering.
pub proof fn lemma_print_list_push(elems: Seq<JsonV>, e: JsonV)
    ensures
        elems.len() == 0 ==> print_list(elems.push(e)) == print_json(e),
        elems.len() > 0 ==> print_list(elems.push(e)) == print_list(elems) + seq![',']
            + print_json(e),
    decreases elems.len(),
{
    let p = elems.push(e);
    if elems.len() == 0 {
        assert(p =~= seq![e]);
        assert(p[0] == e);
        assert(print_list(p) == print_json(e));
    } else if elems.len() == 1 {
        assert(p.subrange(1, p.len() as int) =~= seq![e]);
        assert(p[0] == elems[0]);
        assert(seq![e][0] == e);
        assert(print_list(seq![e]) == print_json(e));
        assert(print_list(p) == print_json(elems[0]) + seq![','] + print_json(e));
        assert(print_list(elems) == print_json(elems[0]));
        assert(print_list(p) =~= print_list(elems) + seq![','] + print_json(e));
    } else {
        let tail = elems.subrange(1, elems.len() as int);
        lemma_print_list_push(tail, e);
        assert(p.subrange(1, p.len() as int) =~= tail.push(e));
        assert(p[0] == elems[0]);
        assert(print_list(p) == print_json(elems[0]) + seq![','] + (print_list(tail) + seq![',']
            + print_json(e)));
        assert(print_list(elems) == print_json(elems[0]) + seq![','] + print_list(tail));
        assert(print_list(p) =~= print_list(elems) + seq![','] + print_json(e));
    }
}

/// The object-member form of the same fact.
pub proof fn lemma_print_members_push(ms: Seq<(Seq<char>, JsonV)>, m: (Seq<char>, JsonV))
    ensures
        ms.len() == 0 ==> print_members(ms.push(m)) == print_member(m),
        ms.len() > 0 ==> print_members(ms.push(m)) == print_members(ms) + seq![',']
            + print_member(m),
    decreases ms.len(),
{
    let p = ms.push(m);
    if ms.len() == 0 {
        assert(p =~= seq![m]);
        assert(p[0] == m);
        assert(print_members(p) == print_member(m));
    } else if ms.len() == 1 {
        assert(p.subrange(1, p.len() as int) =~= seq![m]);
        assert(p[0] == ms[0]);
        assert(seq![m][0] == m);
        assert(print_members(seq![m]) == print_member(m));
        assert(print_members(p) == print_member(ms[0]) + seq![','] + print_member(m));
        assert(print_members(ms) == print_member(ms[0]));
        assert(print_members(p) =~= print_members(ms) + seq![','] + print_member(m));
    } else {
        let tail = ms.subrange(1, ms.len() as int);
        lemma_print_members_push(tail, m);
        assert(p.subrange(1, p.len() as int) =~= tail.push(m));
        assert(p[0] == ms[0]);
        assert(print_members(p) == print_member(ms[0]) + seq![','] + (print_members(tail)
            + seq![','] + print_member(m)));
        assert(print_members(ms) == print_member(ms[0]) + seq![','] + print_members(tail));
        assert(print_members(p) =~= print_members(ms) + seq![','] + print_member(m));
    }
}

/// Appending one character extends the escaped body by that character's
/// escape form.
pub proof fn lemma_print_escaped_push(s: Seq<char>, c: char)
    ensures
        print_escaped(s.push(c)) == print_escaped(s) + esc_char(c),
    decreases s.len(),
{
    let p = s.push(c);
    if s.len() == 0 {
        assert(p =~= seq![c]);
        assert(p[0] == c);
        assert(p.subrange(1, p.len() as int) =~= Seq::<char>::empty());
        assert(print_escaped(p) == esc_char(c) + print_escaped(Seq::<char>::empty()));
        assert(print_escaped(Seq::<char>::empty()) == Seq::<char>::empty());
        assert(print_escaped(s) == Seq::<char>::empty());
        assert(print_escaped(p) =~= print_escaped(s) + esc_char(c));
    } else {
        let tail = s.subrange(1, s.len() as int);
        lemma_print_escaped_push(tail, c);
        assert(p.subrange(1, p.len() as int) =~= tail.push(c));
        assert(p[0] == s[0]);
        assert(print_escaped(p) == esc_char(s[0]) + (print_escaped(tail) + esc_char(c)));
        assert(print_escaped(s) == esc_char(s[0]) + print_escaped(tail));
        assert(print_escaped(p) =~= print_escaped(s) + esc_char(c));
    }
}

/// Writes the decimal digit character for a value below ten.
fn push_digit(d: u64, out: &mut Vec<char>)
    requires
        d < 10,
    ensures
        final(out)@ == old(out)@ + seq![digit_char(d as nat)],
{
    let c: char = if d == 0 {
        '0'
    } else if d == 1 {
        '1'
    } else if d == 2 {
        '2'
    } else if d == 3 {
        '3'
    } else if d == 4 {
        '4'
    } else if d == 5 {
        '5'
    } else if d == 6 {
        '6'
    } else if d == 7 {
        '7'
    } else if d == 8 {
        '8'
    } else {
        '9'
    };
    out.push(c);
}

/// Writes the canonical decimal rendering of a number.
pub fn write_num(n: u64, out: &mut Vec<char>)
    ensures
        final(out)@ == old(out)@ + dec_digits(n as nat),
    decreases n,
{
    if n < 10 {
        push_digit(n, out);
    } else {
        write_num(n / 10, out);
        push_digit(n % 10, out);
    }
}

/// Writes a quoted string: quotes and backslashes in the body get a
/// backslash before them.
pub fn write_string(s: &str, out: &mut Vec<char>)
    ensures
        final(out)@ == old(out)@ + print_string(s@),
{
    out.push('"');
    let len = s.unicode_len();
    let mut k: usize = 0;
    while k < len
        invariant
            len == s@.len(),
            0 <= k <= len,
            out@ == old(out)@ + seq!['"'] + print_escaped(s@.subrange(0, k as int)),
        decreases len - k,
    {
        let c = s.get_char(k);
        if c == '"' || c == '\\' {
            out.push('\\');
        }
        out.push(c);
        proof {
            lemma_print_escaped_push(s@.subrange(0, k as int), c);
            assert(s@.subrange(0, k + 1 as int) =~= s@.subrange(0, k as int).push(s@[k as int]));
        }
        k = k + 1;
    }
    out.push('"');
    proof {
        assert(s@.subrange(0, s@.len() as int) =~= s@);
    }
}

/// Writes the textual rendering of a document tree.
pub fn write_json(j: &Json, out: &mut Vec<char>)
    ensures
        final(out)@ == old(out)@ + print_json(json_view(*j)),
    decreases *j,
{
    match j {
        Json::Null => {
            out.push('n');
            out.push('u');
            out.push('l');
            out.push('l');
            proof {
                assert(final(out)@ =~= old(out)@ + print_json(json_view(*j)));
            }
        },
        Json::Num(n) => {
            write_num(*n, out);
        },
        Json::Str(s) => {
            write_string(s.as_str(), out);
        },
        Json::Arr(v) => {
            out.push('[');
            let ghost elems = json_view(*j)->Arr_0;
            let mut k: usize = 0;
            while k < v.len()
                invariant
                    0 <= k <= v.len(),
                    elems == json_view(*j)->Arr_0,
                    j is Arr && j->Arr_0 == *v,
                    elems.len() == v.len(),
                    forall|i: int| 0 <= i < v.len() ==> elems[i] == json_view(v[i]),
                    out@ == old(out)@ + seq!['['] + print_list(elems.subrange(0, k as int)),
                decreases v.len() - k,
            {
                if k > 0 {
                    out.push(',');
                }
                write_json(&v[k], out);
                proof {
                    lemma_print_list_push(elems.subrange(0, k as int), elems[k as int]);
                    assert(elems.subrange(0, k + 1 as int) =~= elems.subrange(
                        0,
                        k as int,
                    ).push(elems[k as int]));
                }
                k = k + 1;
            }
            out.push(']');
            proof {
                assert(elems.subrange(0, elems.len() as int) =~= elems);
                assert(final(out)@ =~= old(out)@ + print_json(json_view(*j)));
            }
        },
        Json::Obj(v) => {
            out.push('{');
            let ghost ms = json_view(*j)->Obj_0;
            let mut k: usize = 0;
            while k < v.len()
                invariant
                    0 <= k <= v.len(),
                    ms == json_view(*j)->Obj_0,
                    j is Obj && j->Obj_0 == *v,
                    ms.len() == v.len(),
                    forall|i: int|
                        0 <= i < v.len() ==> ms[i] == (v[i].0@, json_view(v[i].1)),
                    out@ == old(out)@ + seq!['{'] + print_members(ms.subrange(0, k as int)),
                decreases v.len() - k,
            {
                if k > 0 {
                    out.push(',');
                }
                write_string(v[k].0.as_str(), out);
                out.push(':');
                write_json(&v[k].1, out);
                proof {
                    lemma_print_members_push(ms.subrange(0, k as int), ms[k as int]);
                    assert(ms.subrange(0, k + 1 as int) =~= ms.subrange(
                        0,
                        k as int,
                    ).push(ms[k as int]));
                }
                k = k + 1;
            }
            out.push('}');
            proof {
                assert(ms.subrange(0, ms.len() as int) =~= ms);
                assert(final(out)@ =~= old(out)@ + print_json(json_view(*j)));
            }
        },
    }
}

} // verus!
