//! The entity model: quotes, their tags, and the read model that joins them.

use vstd::prelude::*;
use vstd::string::StringExecFns;

verus! {

/// A stored quotation.
#[derive(Debug, PartialEq, Eq)]
pub struct Quote {
    pub id: String,
    pub text: String,
    pub author: String,
    pub source: String,
}

/// The scalar fields of a quote as a writer supplies them: no id, no tags.
#[derive(Debug, PartialEq, Eq)]
pub struct QuoteInput {
    pub text: String,
    pub author: String,
    pub source: String,
}

/// One row of the tag table: the fact that a quote carries a label.
#[derive(Debug, PartialEq, Eq)]
pub struct Tag {
    pub quote_id: String,
    pub tag: String,
}

/// A quote together with its labels.
#[derive(Debug, PartialEq, Eq)]
pub struct QuoteWithTags {
    pub quote: Quote,
    pub tags: Vec<String>,
}

/// Mathematical value of a [`Quote`].
pub struct QuoteView {
    pub id: Seq<char>,
    pub text: Seq<char>,
    pub author: Seq<char>,
    pub source: Seq<char>,
}

/// Mathematical value of a [`QuoteInput`].
pub struct QuoteInputView {
    pub text: Seq<char>,
    pub author: Seq<char>,
    pub source: Seq<char>,
}

/// Mathematical value of a [`Tag`].
pub struct TagView {
    pub quote_id: Seq<char>,
    pub tag: Seq<char>,
}

/// Mathematical value of a [`QuoteWithTags`].
pub struct QuoteWithTagsView {
    pub quote: QuoteView,
    pub tags: Seq<Seq<char>>,
}

impl View for Quote {
    type V = QuoteView;

    open spec fn view(&self) -> QuoteView {
        QuoteView { id: self.id@, text: self.text@, author: self.author@, source: self.source@ }
    }
}

impl DeepView for Quote {
    type V = QuoteView;

    open spec fn deep_view(&self) -> QuoteView {
        self@
    }
}

impl View for QuoteInput {
    type V = QuoteInputView;

    open spec fn view(&self) -> QuoteInputView {
        QuoteInputView { text: self.text@, author: self.author@, source: self.source@ }
    }
}

impl DeepView for QuoteInput {
    type V = QuoteInputView;

    open spec fn deep_view(&self) -> QuoteInputView {
        self@
    }
}

impl View for Tag {
    type V = TagView;

    open spec fn view(&self) -> TagView {
        TagView { quote_id: self.quote_id@, tag: self.tag@ }
    }
}

impl DeepView for Tag {
    type V = TagView;

    open spec fn deep_view(&self) -> TagView {
        self@
    }
}

impl View for QuoteWithTags {
    type V = QuoteWithTagsView;

    open spec fn view(&self) -> QuoteWithTagsView {
        QuoteWithTagsView { quote: self.quote@, tags: self.tags.deep_view() }
    }
}

impl DeepView for QuoteWithTags {
    type V = QuoteWithTagsView;

    open spec fn deep_view(&self) -> QuoteWithTagsView {
        self@
    }
}

impl Clone for Quote {
    fn clone(&self) -> (copy: Quote)
        ensures
            copy@ == self@,
    {
        Quote {
            id: self.id.clone(),
            text: self.text.clone(),
            author: self.author.clone(),
            source: self.source.clone(),
        }
    }
}

impl Clone for QuoteInput {
    fn clone(&self) -> (copy: QuoteInput)
        ensures
            copy@ == self@,
    {
        QuoteInput {
            text: self.text.clone(),
            author: self.author.clone(),
            source: self.source.clone(),
        }
    }
}

impl Clone for Tag {
    fn clone(&self) -> (copy: Tag)
        ensures
            copy@ == self@,
    {
        Tag { quote_id: self.quote_id.clone(), tag: self.tag.clone() }
    }
}

/// A copy of a list of texts.
pub fn clone_texts(texts: &Vec<String>) -> (copy: Vec<String>)
    ensures
        copy.deep_view() == texts.deep_view(),
{
    let mut copy: Vec<String> = Vec::new();
    let mut i: usize = 0;
    while i < texts.len()
        invariant
            i <= texts.len(),
            copy.deep_view() == texts.deep_view().take(i as int),
        decreases texts.len() - i,
    {
        let ghost before = copy.deep_view();
        copy.push(texts[i].clone());
        assert(copy.deep_view() =~= before.push(texts[i as int]@));
        assert(copy.deep_view() =~= texts.deep_view().take(i as int + 1));
        i += 1;
    }
    assert(texts.deep_view().take(i as int) =~= texts.deep_view());
    copy
}

impl Clone for QuoteWithTags {
    fn clone(&self) -> (copy: QuoteWithTags)
        ensures
            copy@ == self@,
    {
        QuoteWithTags { quote: self.quote.clone(), tags: clone_texts(&self.tags) }
    }
}

impl QuoteInputView {
    /// The quote that these fields make under the given id.
    pub open spec fn with_id(self, id: Seq<char>) -> QuoteView {
        QuoteView { id, text: self.text, author: self.author, source: self.source }
    }
}

impl QuoteView {
    /// The scalar fields without the id.
    pub open spec fn input(self) -> QuoteInputView {
        QuoteInputView { text: self.text, author: self.author, source: self.source }
    }
}

/// The sixteen lowercase hexadecimal digits in ascending order.
pub open spec fn hex_alphabet() -> Seq<char> {
    seq!['0', '1', '2', '3', '4', '5', '6', '7', '8', '9', 'a', 'b', 'c', 'd', 'e', 'f']
}

/// The digit that writes `d`, for `0 <= d < 16`.
pub open spec fn hex_digit(d: int) -> char
    recommends
        0 <= d < 16,
{
    hex_alphabet()[d]
}

/// The value of the `i`-th hexadecimal place of `n`, counted from the most
/// significant of its eight places.
pub open spec fn hex_place(n: u32, i: int) -> int
    recommends
        0 <= i < 8,
{
    if i == 0 {
        (n as int / 0x1000_0000) % 16
    } else if i == 1 {
        (n as int / 0x100_0000) % 16
    } else if i == 2 {
        (n as int / 0x10_0000) % 16
    } else if i == 3 {
        (n as int / 0x1_0000) % 16
    } else if i == 4 {
        (n as int / 0x1000) % 16
    } else if i == 5 {
        (n as int / 0x100) % 16
    } else if i == 6 {
        (n as int / 0x10) % 16
    } else {
        n as int % 16
    }
}

/// `n` written as eight lowercase hexadecimal digits, zero-padded, most
/// significant digit first.
pub open spec fn hex8(n: u32) -> Seq<char> {
    Seq::new(8, |i: int| hex_digit(hex_place(n, i)))
}

/// What every generated id looks like: eight lowercase hexadecimal digits.
pub open spec fn is_quote_id(s: Seq<char>) -> bool {
    &&& s.len() == 8
    &&& forall|i: int| 0 <= i < 8 ==> hex_alphabet().contains(#[trigger] s[i])
}

/// Every eight-digit rendering is a well-formed id.
pub proof fn lemma_hex8_is_quote_id(n: u32)
    ensures
        is_quote_id(hex8(n)),
{
    assert forall|i: int| 0 <= i < 8 implies hex_alphabet().contains(#[trigger] hex8(n)[i]) by {
        let d = hex_place(n, i);
        assert(0 <= d < 16);
        assert(hex_alphabet()[d] == hex8(n)[i]);
    }
}

/// The value of a lowercase hexadecimal digit.
pub open spec fn digit_value(c: char) -> int {
    if c == '0' {
        0
    } else if c == '1' {
        1
    } else if c == '2' {
        2
    } else if c == '3' {
        3
    } else if c == '4' {
        4
    } else if c == '5' {
        5
    } else if c == '6' {
        6
    } else if c == '7' {
        7
    } else if c == '8' {
        8
    } else if c == '9' {
        9
    } else if c == 'a' {
        10
    } else if c == 'b' {
        11
    } else if c == 'c' {
        12
    } else if c == 'd' {
        13
    } else if c == 'e' {
        14
    } else {
        15
    }
}

/// The number that a text of lowercase hexadecimal digits writes, most
/// significant digit first.
pub open spec fn hex_value(s: Seq<char>) -> int
    decreases s.len(),
{
    if s.len() == 0 {
        0
    } else {
        hex_value(s.drop_last()) * 16 + digit_value(s.last())
    }
}

/// A digit has the value that it writes.
proof fn lemma_digit_value(d: int)
    requires
        0 <= d < 16,
    ensures
        digit_value(hex_digit(d)) == d,
{
}

/// A number is the sum of its hexadecimal places, each times its weight.
proof fn lemma_hex_places(n: u32)
    ensures
        n == ((((((hex_place(n, 0) * 16 + hex_place(n, 1)) * 16 + hex_place(n, 2)) * 16
            + hex_place(n, 3)) * 16 + hex_place(n, 4)) * 16 + hex_place(n, 5)) * 16 + hex_place(
            n,
            6,
        )) * 16 + hex_place(n, 7),
{
    let x = n as int;
    assert(x / 0x1000_0000 < 16);
    assert(x / 0x100_0000 == (x / 0x1000_0000) * 16 + (x / 0x100_0000) % 16);
    assert(x / 0x10_0000 == (x / 0x100_0000) * 16 + (x / 0x10_0000) % 16);
    assert(x / 0x1_0000 == (x / 0x10_0000) * 16 + (x / 0x1_0000) % 16);
    assert(x / 0x1000 == (x / 0x1_0000) * 16 + (x / 0x1000) % 16);
    assert(x / 0x100 == (x / 0x1000) * 16 + (x / 0x100) % 16);
    assert(x / 0x10 == (x / 0x100) * 16 + (x / 0x10) % 16);
    assert(x == (x / 0x10) * 16 + x % 16);
}

/// An id writes the number that it was made from.
pub proof fn lemma_hex8_value(n: u32)
    ensures
        hex_value(hex8(n)) == n,
{
    let s = hex8(n);
    let s7 = s.drop_last();
    let s6 = s7.drop_last();
    let s5 = s6.drop_last();
    let s4 = s5.drop_last();
    let s3 = s4.drop_last();
    let s2 = s3.drop_last();
    let s1 = s2.drop_last();
    let s0 = s1.drop_last();
    lemma_digit_value(hex_place(n, 0));
    lemma_digit_value(hex_place(n, 1));
    lemma_digit_value(hex_place(n, 2));
    lemma_digit_value(hex_place(n, 3));
    lemma_digit_value(hex_place(n, 4));
    lemma_digit_value(hex_place(n, 5));
    lemma_digit_value(hex_place(n, 6));
    lemma_digit_value(hex_place(n, 7));
    assert(hex_value(s0) == 0);
    assert(hex_value(s1) == hex_place(n, 0)) by {
        assert(s1.last() == hex_digit(hex_place(n, 0)));
    }
    assert(hex_value(s2) == hex_value(s1) * 16 + hex_place(n, 1)) by {
        assert(s2.last() == hex_digit(hex_place(n, 1)));
    }
    assert(hex_value(s3) == hex_value(s2) * 16 + hex_place(n, 2)) by {
        assert(s3.last() == hex_digit(hex_place(n, 2)));
    }
    assert(hex_value(s4) == hex_value(s3) * 16 + hex_place(n, 3)) by {
        assert(s4.last() == hex_digit(hex_place(n, 3)));
    }
    assert(hex_value(s5) == hex_value(s4) * 16 + hex_place(n, 4)) by {
        assert(s5.last() == hex_digit(hex_place(n, 4)));
    }
    assert(hex_value(s6) == hex_value(s5) * 16 + hex_place(n, 5)) by {
        assert(s6.last() == hex_digit(hex_place(n, 5)));
    }
    assert(hex_value(s7) == hex_value(s6) * 16 + hex_place(n, 6)) by {
        assert(s7.last() == hex_digit(hex_place(n, 6)));
    }
    assert(hex_value(s) == hex_value(s7) * 16 + hex_place(n, 7)) by {
        assert(s.last() == hex_digit(hex_place(n, 7)));
    }
    lemma_hex_places(n);
}

/// Different numbers make different ids.
pub proof fn lemma_hex8_is_injective(a: u32, b: u32)
    requires
        hex8(a) == hex8(b),
    ensures
        a == b,
{
    lemma_hex8_value(a);
    lemma_hex8_value(b);
}

/// The one-character text of a hexadecimal digit.
fn digit_text(d: u32) -> (text: &'static str)
    requires
        d < 16,
    ensures
        text@ == seq![hex_digit(d as int)],
{
    proof {
        reveal_strlit("0");
        reveal_strlit("1");
        reveal_strlit("2");
        reveal_strlit("3");
        reveal_strlit("4");
        reveal_strlit("5");
        reveal_strlit("6");
        reveal_strlit("7");
        reveal_strlit("8");
        reveal_strlit("9");
        reveal_strlit("a");
        reveal_strlit("b");
        reveal_strlit("c");
        reveal_strlit("d");
        reveal_strlit("e");
        reveal_strlit("f");
    }
    let text = if d == 0 {
        "0"
    } else if d == 1 {
        "1"
    } else if d == 2 {
        "2"
    } else if d == 3 {
        "3"
    } else if d == 4 {
        "4"
    } else if d == 5 {
        "5"
    } else if d == 6 {
        "6"
    } else if d == 7 {
        "7"
    } else if d == 8 {
        "8"
    } else if d == 9 {
        "9"
    } else if d == 10 {
        "a"
    } else if d == 11 {
        "b"
    } else if d == 12 {
        "c"
    } else if d == 13 {
        "d"
    } else if d == 14 {
        "e"
    } else {
        "f"
    };
    assert(text@ =~= seq![hex_digit(d as int)]);
    text
}

/// Writes `n` as an id: eight lowercase hexadecimal digits.
pub fn id_from_number(n: u32) -> (id: String)
    ensures
        id@ == hex8(n),
{
    let mut id = String::new();
    id.append(digit_text((n / 0x1000_0000) % 16));
    id.append(digit_text((n / 0x100_0000) % 16));
    id.append(digit_text((n / 0x10_0000) % 16));
    id.append(digit_text((n / 0x1_0000) % 16));
    id.append(digit_text((n / 0x1000) % 16));
    id.append(digit_text((n / 0x100) % 16));
    id.append(digit_text((n / 0x10) % 16));
    id.append(digit_text(n % 16));
    assert(id@ =~= hex8(n));
    id
}

/// Draws a number from the thread's generator, `fastrand::u32` over the full
/// range. Nothing is claimed of the number drawn.
#[verifier::external_body]
fn random_number() -> u32 {
    fastrand::u32(..)
}

impl Quote {
    /// A quote with a freshly drawn id. The id is not checked against the
    /// store: two quotes may draw the same one.
    pub fn new(text: String, author: String, source: String) -> (quote: Quote)
        ensures
            exists|n: u32| quote.id@ == hex8(n),
            is_quote_id(quote.id@),
            quote.text == text,
            quote.author == author,
            quote.source == source,
    {
        Quote { id: Quote::generate_id(), text, author, source }
    }

    /// A quote whose id is the rendering of `n`.
    pub fn with_number(n: u32, text: String, author: String, source: String) -> (quote: Quote)
        ensures
            quote.id@ == hex8(n),
            quote.text == text,
            quote.author == author,
            quote.source == source,
    {
        Quote { id: id_from_number(n), text, author, source }
    }

    fn generate_id() -> (id: String)
        ensures
            exists|n: u32| id@ == hex8(n),
            is_quote_id(id@),
    {
        let n = random_number();
        proof {
            lemma_hex8_is_quote_id(n);
        }
        id_from_number(n)
    }

    /// The quote that a writer's input becomes: its fields under a freshly
    /// drawn id.
    pub fn from(input: QuoteInput) -> (quote: Quote)
        ensures
            exists|n: u32| quote.id@ == hex8(n),
            is_quote_id(quote.id@),
            quote@.input() == input@,
    {
        Quote::new(input.text, input.author, input.source)
    }
}

} // verus!
