//! Identifier case conversion for generated names: method names in
//! snake_case become command variants in PascalCase (`send_message` gives
//! `SendMessage`), and event types in PascalCase become snake_case method
//! suffixes (`MessageSent` gives `message_sent`).
//!
//! Case mappings are Unicode's, as std's `char` methods give them.

use crate::text::push_char;
use vstd::prelude::*;

verus! {

/// The uppercase mapping of `c`, as `char::to_uppercase` yields it.
pub uninterp spec fn char_uppercase(c: char) -> Seq<char>;

/// The lowercase mapping of `c`, as `char::to_lowercase` yields it.
pub uninterp spec fn char_lowercase(c: char) -> Seq<char>;

/// Whether `c` has Unicode's `Uppercase` property, as `char::is_uppercase`
/// answers.
pub uninterp spec fn char_is_uppercase(c: char) -> bool;

/// Whether `c` is an ASCII char.
pub open spec fn is_ascii_char(c: char) -> bool {
    (c as u32) < 128
}

/// Whether `c` is an ASCII lowercase letter.
pub open spec fn is_ascii_lower(c: char) -> bool {
    'a' <= c && c <= 'z'
}

/// Whether `c` is an ASCII uppercase letter.
pub open spec fn is_ascii_upper(c: char) -> bool {
    'A' <= c && c <= 'Z'
}

/// The uppercase mapping of `c`: an ASCII lowercase letter becomes its
/// uppercase letter, any other ASCII char stays, and beyond ASCII it is
/// Unicode's mapping.
pub open spec fn upper_mapping(c: char) -> Seq<char> {
    if is_ascii_lower(c) {
        seq![((c as u32) - 32) as char]
    } else if is_ascii_char(c) {
        seq![c]
    } else {
        char_uppercase(c)
    }
}

/// The lowercase mapping of `c`: an ASCII uppercase letter becomes its
/// lowercase letter, any other ASCII char stays, and beyond ASCII it is
/// Unicode's mapping.
pub open spec fn lower_mapping(c: char) -> Seq<char> {
    if is_ascii_upper(c) {
        seq![((c as u32) + 32) as char]
    } else if is_ascii_char(c) {
        seq![c]
    } else {
        char_lowercase(c)
    }
}

/// Whether `c` is uppercase: among ASCII chars, exactly the letters `A` to
/// `Z`; beyond ASCII, Unicode's `Uppercase` property.
pub open spec fn is_upper_char(c: char) -> bool {
    if is_ascii_char(c) {
        is_ascii_upper(c)
    } else {
        char_is_uppercase(c)
    }
}

/// Calls `char::to_uppercase` and collects what it yields. Its documentation
/// promises one or more chars: the mapping, or `c` itself where there is none.
/// Among ASCII chars only the letters `a` to `z` have a mapping, to `A` to
/// `Z` (as `to_ascii_uppercase` documents for ASCII).
#[verifier::external_body]
fn uppercase_of(c: char) -> (mapped: Vec<char>)
    ensures
        mapped@ == upper_mapping(c),
        !is_ascii_char(c) ==> mapped@ == char_uppercase(c),
        mapped@.len() >= 1,
{
    c.to_uppercase().collect()
}

/// Calls `char::to_lowercase` and collects what it yields. Its documentation
/// promises one or more chars: the mapping, or `c` itself where there is none.
/// Among ASCII chars only the letters `A` to `Z` have a mapping, to `a` to
/// `z` (as `to_ascii_lowercase` documents for ASCII).
#[verifier::external_body]
fn lowercase_of(c: char) -> (mapped: Vec<char>)
    ensures
        mapped@ == lower_mapping(c),
        !is_ascii_char(c) ==> mapped@ == char_lowercase(c),
        mapped@.len() >= 1,
{
    c.to_lowercase().collect()
}

/// Calls `char::is_uppercase`. Among ASCII chars only `A` to `Z` have the
/// `Uppercase` property.
#[verifier::external_body]
fn is_uppercase(c: char) -> (upper: bool)
    ensures
        upper == is_upper_char(c),
        !is_ascii_char(c) ==> upper == char_is_uppercase(c),
{
    c.is_uppercase()
}

/// What the char at `i` of `s` becomes in PascalCase: an underscore is
/// dropped, the first char of each `_`-separated word is uppercased, and the
/// others are kept.
pub open spec fn pascal_piece(s: Seq<char>, i: int) -> Seq<char> {
    if s[i] == '_' {
        Seq::empty()
    } else if i == 0 || s[i - 1] == '_' {
        upper_mapping(s[i])
    } else {
        seq![s[i]]
    }
}

/// `s` in PascalCase: the pieces of its chars, in order.
pub open spec fn pascal_case(s: Seq<char>) -> Seq<char>
    decreases s.len(),
{
    if s.len() == 0 {
        Seq::empty()
    } else {
        pascal_case(s.drop_last()) + pascal_piece(s, s.len() - 1)
    }
}

/// What the char at `i` of `s` becomes in snake_case: an uppercase char
/// becomes the first char of its lowercase mapping, preceded by an underscore
/// unless it is the first char; any other char is kept.
pub open spec fn snake_piece(s: Seq<char>, i: int) -> Seq<char> {
    if is_upper_char(s[i]) {
        if i > 0 {
            seq!['_', lower_mapping(s[i])[0]]
        } else {
            seq![lower_mapping(s[i])[0]]
        }
    } else {
        seq![s[i]]
    }
}

/// `s` in snake_case: the pieces of its chars, in order.
pub open spec fn snake_case(s: Seq<char>) -> Seq<char>
    decreases s.len(),
{
    if s.len() == 0 {
        Seq::empty()
    } else {
        snake_case(s.drop_last()) + snake_piece(s, s.len() - 1)
    }
}

/// Convert snake_case to PascalCase.
pub fn to_pascal_case(s: &str) -> (pascal: String)
    ensures
        pascal@ == pascal_case(s@),
{
    let mut out = String::new();
    let mut word_start = true;
    let ghost chars = s@;
    for c in it: s.chars()
        invariant
            chars == s@,
            it.seq() == chars,
            it.index() <= chars.len(),
            word_start == (it.index() == 0 || chars[it.index() - 1] == '_'),
            out@ == pascal_case(chars.take(it.index() as int)),
    {
        let ghost i = it.index();
        assert(c == chars[i as int]);
        assert(chars.take(i + 1).drop_last() =~= chars.take(i as int));
        let ghost before = out@;
        if c == '_' {
            word_start = true;
        } else if word_start {
            let upper = uppercase_of(c);
            let mut j: usize = 0;
            while j < upper.len()
                invariant
                    j <= upper.len(),
                    out@ == before + upper@.take(j as int),
                decreases upper.len() - j,
            {
                push_char(&mut out, upper[j]);
                assert(upper@.take(j + 1) =~= upper@.take(j as int).push(upper@[j as int]));
                j = j + 1;
            }
            assert(upper@.take(upper.len() as int) =~= upper@);
            word_start = false;
        } else {
            push_char(&mut out, c);
            word_start = false;
        }
        assert(pascal_piece(chars.take(i + 1), i as int) == pascal_piece(chars, i as int));
        assert(out@ =~= pascal_case(chars.take(i + 1)));
    }
    assert(chars.take(chars.len() as int) =~= chars);
    out
}

/// Convert PascalCase to snake_case.
pub fn to_snake_case(s: &str) -> (snake: String)
    ensures
        snake@ == snake_case(s@),
{
    let mut out = String::new();
    let ghost chars = s@;
    let mut first = true;
    for c in it: s.chars()
        invariant
            chars == s@,
            it.seq() == chars,
            it.index() <= chars.len(),
            first == (it.index() == 0),
            out@ == snake_case(chars.take(it.index() as int)),
    {
        let ghost i = it.index();
        assert(c == chars[i as int]);
        assert(chars.take(i + 1).drop_last() =~= chars.take(i as int));
        if is_uppercase(c) {
            if !first {
                push_char(&mut out, '_');
            }
            let lower = lowercase_of(c);
            push_char(&mut out, lower[0]);
        } else {
            push_char(&mut out, c);
        }
        assert(snake_piece(chars.take(i + 1), i as int) == snake_piece(chars, i as int));
        assert(out@ =~= snake_case(chars.take(i + 1)));
        first = false;
    }
    assert(chars.take(chars.len() as int) =~= chars);
    out
}

/// Each `_`-separated word is converted on its own: converting `a`, an
/// underscore and `b` gives the conversion of `a` followed by that of `b`.
pub proof fn law_pascal_case_by_words(a: Seq<char>, b: Seq<char>)
    ensures
        pascal_case(a + seq!['_'] + b) == pascal_case(a) + pascal_case(b),
    decreases b.len(),
{
    let s = a + seq!['_'] + b;
    if b.len() == 0 {
        assert(s.drop_last() =~= a);
        assert(pascal_piece(s, s.len() - 1) =~= Seq::<char>::empty());
        assert(pascal_case(b) =~= Seq::<char>::empty());
        assert(pascal_case(a) + pascal_case(b) =~= pascal_case(a));
    } else {
        let b0 = b.drop_last();
        law_pascal_case_by_words(a, b0);
        assert(s.drop_last() =~= a + seq!['_'] + b0);
        assert(s[s.len() - 1] == b[b.len() - 1]);
        if b.len() > 1 {
            assert(s[s.len() - 2] == b[b.len() - 2]);
        } else {
            assert(s[s.len() - 2] == '_');
        }
        assert(pascal_piece(s, s.len() - 1) == pascal_piece(b, b.len() - 1));
        assert(pascal_case(a) + pascal_case(b) =~= pascal_case(a) + pascal_case(b0) + pascal_piece(
            b,
            b.len() - 1,
        ));
    }
}

/// A string with no uppercase char is already in snake_case.
pub proof fn law_snake_case_keeps_non_uppercase(s: Seq<char>)
    requires
        forall|i: int| 0 <= i < s.len() ==> !is_upper_char(#[trigger] s[i]),
    ensures
        snake_case(s) == s,
    decreases s.len(),
{
    if s.len() > 0 {
        let s0 = s.drop_last();
        assert forall|i: int| 0 <= i < s0.len() implies !is_upper_char(#[trigger] s0[i]) by {
            assert(s0[i] == s[i]);
        }
        law_snake_case_keeps_non_uppercase(s0);
        assert(!is_upper_char(s[s.len() - 1]));
        assert(snake_case(s) =~= s);
    }
}

/// ASCII letters map to each other's case and back.
proof fn lemma_ascii_case(c: char)
    ensures
        is_ascii_lower(c) ==> {
            let u = upper_mapping(c)[0];
            &&& upper_mapping(c).len() == 1
            &&& is_ascii_upper(u)
            &&& is_ascii_char(u)
            &&& lower_mapping(u) == seq![c]
        },
        is_ascii_upper(c) ==> {
            let l = lower_mapping(c)[0];
            &&& lower_mapping(c).len() == 1
            &&& is_ascii_lower(l)
            &&& is_ascii_char(l)
            &&& l != '_'
            &&& upper_mapping(l) == seq![c]
        },
{
    if is_ascii_lower(c) {
        let u = ((c as u32) - 32) as char;
        assert(u as u32 == (c as u32) - 32);
        assert(((u as u32) + 32) as char == c);
    }
    if is_ascii_upper(c) {
        let l = ((c as u32) + 32) as char;
        assert(l as u32 == (c as u32) + 32);
        assert(((l as u32) - 32) as char == c);
    }
}

/// The snake_case of a non-empty ASCII string without underscores does not
/// end with an underscore.
proof fn lemma_snake_case_last(s: Seq<char>)
    requires
        s.len() > 0,
        forall|i: int| 0 <= i < s.len() ==> is_ascii_char(#[trigger] s[i]) && s[i] != '_',
    ensures
        snake_case(s).len() > 0,
        snake_case(s).last() != '_',
{
    let c = s[s.len() - 1];
    lemma_ascii_case(c);
    assert(snake_case(s) == snake_case(s.drop_last()) + snake_piece(s, s.len() - 1));
}

/// Converting a PascalCase ASCII name to snake_case and back gives the name
/// again, where it has no underscore and starts with an uppercase letter
/// (`HTTPServer` gives `h_t_t_p_server` and back).
pub proof fn law_pascal_case_undoes_snake_case(s: Seq<char>)
    requires
        s.len() > 0,
        forall|i: int| 0 <= i < s.len() ==> is_ascii_char(#[trigger] s[i]) && s[i] != '_',
        is_ascii_upper(s[0]),
    ensures
        pascal_case(snake_case(s)) == s,
    decreases s.len(),
{
    let n = s.len();
    let c = s[n - 1];
    lemma_ascii_case(c);
    if n == 1 {
        let l = lower_mapping(c)[0];
        assert(s.drop_last() =~= Seq::<char>::empty());
        assert(snake_case(s) =~= seq![l]);
        let x = seq![l];
        assert(x.drop_last() =~= Seq::<char>::empty());
        assert(pascal_case(Seq::<char>::empty()) =~= Seq::<char>::empty());
        assert(x[0] == l);
        assert(pascal_piece(x, 0) == upper_mapping(l));
        assert(pascal_case(x) =~= pascal_case(Seq::<char>::empty()) + pascal_piece(x, 0));
        assert(pascal_case(x) =~= upper_mapping(l));
        assert(s =~= seq![c]);
    } else {
        let s0 = s.drop_last();
        assert forall|i: int| 0 <= i < s0.len() implies is_ascii_char(#[trigger] s0[i]) && s0[i] != '_' by {
            assert(s0[i] == s[i]);
        }
        law_pascal_case_undoes_snake_case(s0);
        lemma_snake_case_last(s0);
        let x = snake_case(s0);
        assert(snake_case(s) == x + snake_piece(s, n - 1));
        if is_upper_char(c) {
            let l = lower_mapping(c)[0];
            let y = x.push('_');
            let z = y.push(l);
            assert(snake_case(s) =~= z);
            assert(z.drop_last() =~= y);
            assert(y.drop_last() =~= x);
            assert(pascal_piece(y, y.len() - 1) =~= Seq::<char>::empty());
            assert(pascal_case(y) =~= pascal_case(x));
            assert(pascal_piece(z, z.len() - 1) == upper_mapping(l));
            assert(pascal_case(z) =~= s0.push(c));
        } else {
            let z = x.push(c);
            assert(snake_case(s) =~= z);
            assert(z.drop_last() =~= x);
            assert(z[z.len() - 2] == x.last());
            assert(pascal_piece(z, z.len() - 1) =~= seq![c]);
            assert(pascal_case(z) =~= s0.push(c));
        }
        assert(s0.push(c) =~= s);
    }
}

/// A prefix of a snake_case ASCII identifier: no uppercase letter, starting
/// with a lowercase letter, and each underscore followed, where anything
/// follows, by a lowercase letter.
pub open spec fn snake_prefix(p: Seq<char>) -> bool {
    &&& p.len() > 0
    &&& is_ascii_lower(p[0])
    &&& forall|i: int| 0 <= i < p.len() ==> is_ascii_char(#[trigger] p[i]) && !is_ascii_upper(p[i])
    &&& forall|i: int| 0 <= i < p.len() - 1 ==> #[trigger] p[i] == '_' ==> is_ascii_lower(p[i + 1])
}

proof fn lemma_snake_of_pascal_prefix(p: Seq<char>)
    requires
        snake_prefix(p),
    ensures
        pascal_case(p).len() > 0,
        snake_case(pascal_case(p)) == if p.last() == '_' {
            p.drop_last()
        } else {
            p
        },
    decreases p.len(),
{
    let n = p.len();
    let c = p[n - 1];
    lemma_ascii_case(c);
    if n == 1 {
        assert(p.drop_last() =~= Seq::<char>::empty());
        let u = upper_mapping(c)[0];
        assert(pascal_case(p) =~= seq![u]);
        let x = seq![u];
        assert(x.drop_last() =~= Seq::<char>::empty());
        lemma_ascii_case(u);
        assert(snake_case(Seq::<char>::empty()) =~= Seq::<char>::empty());
        assert(x[0] == u);
        assert(is_upper_char(u));
        assert(snake_piece(x, 0) =~= seq![lower_mapping(u)[0]]);
        assert(snake_case(x) =~= snake_case(Seq::<char>::empty()) + snake_piece(x, 0));
        assert(snake_case(x) =~= seq![lower_mapping(u)[0]]);
        assert(p =~= seq![c]);
    } else {
        let p0 = p.drop_last();
        assert(p0[0] == p[0]);
        assert forall|i: int| 0 <= i < p0.len() implies is_ascii_char(#[trigger] p0[i]) && !is_ascii_upper(p0[i]) by {
            assert(p0[i] == p[i]);
        }
        assert forall|i: int| 0 <= i < p0.len() - 1 && #[trigger] p0[i] == '_' implies is_ascii_lower(p0[i + 1]) by {
            assert(p0[i] == p[i]);
            assert(p0[i + 1] == p[i + 1]);
        }
        lemma_snake_of_pascal_prefix(p0);
        let x = pascal_case(p0);
        assert(pascal_case(p) == x + pascal_piece(p, n - 1));
        assert(p[n - 2] == p0.last());
        if c == '_' {
            assert(pascal_piece(p, n - 1) =~= Seq::<char>::empty());
            assert(pascal_case(p) =~= x);
            if p0.last() == '_' {
                assert(p[n - 2] == '_');
                assert(is_ascii_lower(p[n - 1]));
            }
        } else if p0.last() == '_' {
            assert(is_ascii_lower(c));
            let u = upper_mapping(c)[0];
            lemma_ascii_case(u);
            let z = x.push(u);
            assert(pascal_case(p) =~= z);
            assert(z.drop_last() =~= x);
            assert(snake_piece(z, z.len() - 1) =~= seq!['_', c]);
            assert(snake_case(z) =~= p0.drop_last() + seq!['_', c]);
            assert(p0.drop_last().push('_') =~= p0);
            assert(p0.drop_last() + seq!['_', c] =~= p);
        } else {
            let z = x.push(c);
            assert(pascal_piece(p, n - 1) =~= seq![c]);
            assert(pascal_case(p) =~= z);
            assert(z.drop_last() =~= x);
            assert(!is_upper_char(c));
            assert(snake_piece(z, z.len() - 1) =~= seq![c]);
            assert(snake_case(z) =~= p0.push(c));
            assert(p0.push(c) =~= p);
        }
    }
}

/// Converting a snake_case ASCII identifier to PascalCase and back gives the
/// identifier again, where its `_`-separated words are non-empty, each
/// starts with a lowercase letter and none holds an uppercase letter
/// (`send_message` gives `SendMessage` and back).
pub proof fn law_snake_case_undoes_pascal_case(s: Seq<char>)
    requires
        snake_prefix(s),
        s.last() != '_',
    ensures
        snake_case(pascal_case(s)) == s,
{
    lemma_snake_of_pascal_prefix(s);
}

} // verus!
