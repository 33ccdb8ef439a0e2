//! Text primitives: the order on names and the conversions between the
//! spellings of a name.

use convert_case::{Case, Casing};
use vstd::prelude::*;
use vstd::string::StringExecFns;

verus! {

/// The spellings of a name that message sets use.
#[derive(Clone, Copy, PartialEq, Eq, Structural, Debug)]
pub enum Spelling {
    /// Lower-case words joined by underscores: the spelling on the wire.
    Snake,
    /// Capitalised words written together: the spelling of a variant's tag.
    UpperCamel,
}

/// The text that `convert_case` makes of `name` for the given spelling. The
/// conversion splits the name into words along its own boundary rules and
/// rejoins them; it is a function of the name and the spelling alone.
pub uninterp spec fn spelled(name: Seq<char>, spelling: Spelling) -> Seq<char>;

/// The wire name that belongs to a tag or a method name.
pub open spec fn snake_case(name: Seq<char>) -> Seq<char> {
    spelled(name, Spelling::Snake)
}

/// The tag that belongs to a method name.
pub open spec fn upper_camel_case(name: Seq<char>) -> Seq<char> {
    spelled(name, Spelling::UpperCamel)
}

/// Calls `convert_case::Casing::to_case` on `name`, with `Case::Snake` or
/// `Case::UpperCamel`. Nothing is proved of the outcome: the contract only
/// gives it the name `spelled`. The outside function neither fails nor panics.
#[verifier::external_body]
pub(crate) fn respell(name: &String, spelling: Spelling) -> (out: String)
    ensures
        out@ == spelled(name@, spelling),
{
    name.to_case(match spelling {
        Spelling::Snake => Case::Snake,
        Spelling::UpperCamel => Case::UpperCamel,
    })
}

/// Strict lexicographic order on texts, character by character, a character
/// being ranked by its code point. A proper prefix precedes its extensions.
pub open spec fn precedes(a: Seq<char>, b: Seq<char>) -> bool
    decreases a.len(),
{
    if b.len() == 0 {
        false
    } else if a.len() == 0 {
        true
    } else if a[0] == b[0] {
        precedes(a.drop_first(), b.drop_first())
    } else {
        (a[0] as u32) < (b[0] as u32)
    }
}

/// No text precedes itself.
pub proof fn lemma_precedes_irreflexive(a: Seq<char>)
    ensures
        !precedes(a, a),
    decreases a.len(),
{
    if a.len() > 0 {
        lemma_precedes_irreflexive(a.drop_first());
    }
}

/// The order is transitive.
pub proof fn lemma_precedes_transitive(a: Seq<char>, b: Seq<char>, c: Seq<char>)
    requires
        precedes(a, b),
        precedes(b, c),
    ensures
        precedes(a, c),
    decreases a.len(),
{
    if a.len() > 0 && a[0] == b[0] && b[0] == c[0] {
        lemma_precedes_transitive(a.drop_first(), b.drop_first(), c.drop_first());
    }
}

/// Of two different texts one precedes the other.
pub proof fn lemma_precedes_total(a: Seq<char>, b: Seq<char>)
    ensures
        a == b || precedes(a, b) || precedes(b, a),
    decreases a.len(),
{
    if a.len() == 0 || b.len() == 0 {
        if a.len() == 0 && b.len() == 0 {
            assert(a =~= b);
        }
    } else if a[0] == b[0] {
        lemma_precedes_total(a.drop_first(), b.drop_first());
        if a.drop_first() == b.drop_first() {
            assert(a =~= seq![a[0]] + a.drop_first());
            assert(b =~= seq![b[0]] + b.drop_first());
        }
    } else {
        vstd::utf8::char_u32_cast(a[0], a[0] as u32);
        vstd::utf8::char_u32_cast(b[0], b[0] as u32);
    }
}

/// The characters of a text, in order.
pub fn chars_of(s: &str) -> (out: Vec<char>)
    ensures
        out@ == s@,
{
    let mut out: Vec<char> = Vec::new();
    for c in it: s.chars()
        invariant
            out@ == it.seq().take(it.index()),
            it.seq() == s@,
    {
        out.push(c);
    }
    out
}

/// A fresh text with the characters of a literal.
pub fn text(literal: &str) -> (out: String)
    ensures
        out@ == literal@,
{
    String::from_str(literal)
}

/// Whether `a` comes strictly before `b` in the order of names.
pub fn less(a: &str, b: &str) -> (r: bool)
    ensures
        r == precedes(a@, b@),
{
    let x = chars_of(a);
    let y = chars_of(b);
    let mut i: usize = 0;
    proof {
        assert(x@.skip(0) =~= x@);
        assert(y@.skip(0) =~= y@);
    }
    while i < x.len() && i < y.len() && x[i] == y[i]
        invariant
            i <= x.len(),
            i <= y.len(),
            precedes(x@, y@) == precedes(x@.skip(i as int), y@.skip(i as int)),
        decreases x.len() - i,
    {
        proof {
            assert(x@.skip(i as int).drop_first() =~= x@.skip(i + 1));
            assert(y@.skip(i as int).drop_first() =~= y@.skip(i + 1));
        }
        i += 1;
    }
    if i >= y.len() {
        false
    } else if i >= x.len() {
        true
    } else {
        (x[i] as u32) < (y[i] as u32)
    }
}

/// The character that writes a digit.
pub open spec fn digit(d: nat) -> char {
    if d == 0 {
        '0'
    } else if d == 1 {
        '1'
    } else if d == 2 {
        '2'
    } else if d == 3 {
        '3'
    } else if d == 4 {
        '4'
    } else if d == 5 {
        '5'
    } else if d == 6 {
        '6'
    } else if d == 7 {
        '7'
    } else if d == 8 {
        '8'
    } else {
        '9'
    }
}

/// A number in decimal notation, without leading zeros.
pub open spec fn decimal(n: nat) -> Seq<char>
    decreases n,
{
    if n < 10 {
        seq![digit(n)]
    } else {
        decimal(n / 10).push(digit(n % 10))
    }
}

/// The text of one digit.
fn digit_text(d: usize) -> (out: &'static str)
    requires
        d < 10,
    ensures
        out@ == seq![digit(d as nat)],
{
    proof {
        reveal_strlit("0");
        reveal_strlit("1");
        reveal_strlit("2");
        reveal_strlit("3");
        reveal_strlit("4");
        reveal_strlit("5");
        reveal_strlit("6");
        reveal_strlit("7");
        reveal_strlit("8");
        reveal_strlit("9");
    }
    let out = if d == 0 {
        "0"
    } else if d == 1 {
        "1"
    } else if d == 2 {
        "2"
    } else if d == 3 {
        "3"
    } else if d == 4 {
        "4"
    } else if d == 5 {
        "5"
    } else if d == 6 {
        "6"
    } else if d == 7 {
        "7"
    } else if d == 8 {
        "8"
    } else {
        "9"
    };
    assert(out@ =~= seq![digit(d as nat)]);
    out
}

/// Writes a number in decimal notation.
pub fn decimal_text(n: usize) -> (out: String)
    ensures
        out@ == decimal(n as nat),
    decreases n,
{
    if n < 10 {
        String::from_str(digit_text(n))
    } else {
        let head = decimal_text(n / 10);
        let out = head.concat(digit_text(n % 10));
        assert(out@ =~= decimal(n as nat));
        out
    }
}

/// Whether `part` occurs in `whole` as a run of consecutive characters.
pub open spec fn occurs_in(part: Seq<char>, whole: Seq<char>) -> bool {
    exists|at: int|
        0 <= at && at + part.len() <= whole.len() && #[trigger] whole.subrange(at, at + part.len())
            == part
}

/// A text occurs in whatever ends with it.
pub proof fn lemma_occurs_at_end(part: Seq<char>, before: Seq<char>)
    ensures
        occurs_in(part, before + part),
{
    let whole = before + part;
    assert(whole.subrange(before.len() as int, (before.len() + part.len()) as int) =~= part);
}

/// What occurs in a text occurs in each of its extensions, on either side.
pub proof fn lemma_occurs_in_longer(part: Seq<char>, whole: Seq<char>, before: Seq<char>, after: Seq<char>)
    requires
        occurs_in(part, whole),
    ensures
        occurs_in(part, before + whole + after),
{
    let at = choose|at: int|
        0 <= at && at + part.len() <= whole.len() && #[trigger] whole.subrange(at, at + part.len())
            == part;
    let longer = before + whole + after;
    assert(longer.subrange(before.len() + at, before.len() + at + part.len()) =~= whole.subrange(
        at,
        at + part.len(),
    ));
}

/// The texts of a list written one after the other, with `sep` between each
/// two.
pub open spec fn joined(texts: Seq<Seq<char>>, sep: Seq<char>) -> Seq<char>
    decreases texts.len(),
{
    if texts.len() == 0 {
        Seq::empty()
    } else if texts.len() == 1 {
        texts[0]
    } else {
        joined(texts.drop_last(), sep) + sep + texts.last()
    }
}

/// Each text of a list occurs in the list's joined text.
pub proof fn lemma_joined_holds(texts: Seq<Seq<char>>, sep: Seq<char>, k: int)
    requires
        0 <= k < texts.len(),
    ensures
        occurs_in(texts[k], joined(texts, sep)),
    decreases texts.len(),
{
    if texts.len() == 1 {
        lemma_occurs_at_end(texts[0], Seq::empty());
        assert(Seq::<char>::empty() + texts[0] =~= texts[0]);
    } else if k == texts.len() - 1 {
        lemma_occurs_at_end(texts.last(), joined(texts.drop_last(), sep) + sep);
    } else {
        lemma_joined_holds(texts.drop_last(), sep, k);
        lemma_occurs_in_longer(
            texts[k],
            joined(texts.drop_last(), sep),
            Seq::empty(),
            sep + texts.last(),
        );
        assert(Seq::<char>::empty() + joined(texts.drop_last(), sep) + (sep + texts.last())
            =~= joined(texts, sep));
    }
}

/// Writes the texts of a list one after the other, with `sep` between each
/// two.
pub fn join(texts: &Vec<String>, sep: &str) -> (out: String)
    ensures
        out@ == joined(texts.deep_view(), sep@),
{
    let ghost all = texts.deep_view();
    let mut out = String::new();
    let mut i: usize = 0;
    while i < texts.len()
        invariant
            i <= texts.len(),
            all == texts.deep_view(),
            out@ == joined(all.take(i as int), sep@),
        decreases texts.len() - i,
    {
        proof {
            assert(all.take(i + 1).drop_last() =~= all.take(i as int));
            assert(all.take(i + 1).last() == texts@[i as int]@);
        }
        if i > 0 {
            out.append(sep);
        } else {
            assert(Seq::<char>::empty() + texts@[i as int]@ =~= texts@[i as int]@);
        }
        out.append(texts[i].as_str());
        i += 1;
    }
    proof {
        assert(all.take(i as int) =~= all);
    }
    out
}

} // verus!
