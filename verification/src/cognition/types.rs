//! Core types for the TMI cognitive architecture.
//!
//! - `ThoughtId` / `WindowId`: identifiers (version-4 UUID values)
//! - `Content`: pre-linguistic content (not words)
//! - `Window`: a memory window holding content
//!
//! TMI distinguishes between thoughts and language. A baby thinks before
//! it speaks. These types represent thought-structures, not words.
use vstd::prelude::*;
use vstd::arithmetic::power::pow;
use crate::timestamp::{Timestamp, utc_now};

verus! {

// ---------------------------------------------------------------------------
// Identifiers
// ---------------------------------------------------------------------------

/// Lower-case hexadecimal digit for a value in `0..16`.
pub open spec fn hex_lower(d: int) -> char {
    if d < 10 {
        (d + 48) as char
    } else {
        (d + 87) as char
    }
}

/// The `k`-th hexadecimal digit (most significant first) of a 128-bit value.
pub open spec fn nibble_at(v: u128, k: int) -> int {
    (v as int / pow(16, (31 - k) as nat)) % 16
}

/// Position among the 32 hex digits that text position `i` of the
/// 8-4-4-4-12 layout shows.
pub open spec fn uuid_digit_index(i: int) -> int {
    if i < 8 {
        i
    } else if i < 13 {
        i - 1
    } else if i < 18 {
        i - 2
    } else if i < 23 {
        i - 3
    } else {
        i - 4
    }
}

/// The hyphenated lower-case text of a UUID value: 36 characters,
/// hyphens at positions 8, 13, 18 and 23.
pub open spec fn uuid_hyphenated(v: u128) -> Seq<char> {
    Seq::new(
        36,
        |i: int|
            if i == 8 || i == 13 || i == 18 || i == 23 {
                '-'
            } else {
                hex_lower(nibble_at(v, uuid_digit_index(i)))
            },
    )
}

/// A version-4 (random) UUID layout: version digit 4, variant bits `10`.
pub open spec fn is_v4_layout(v: u128) -> bool {
    &&& nibble_at(v, 12) == 4
    &&& 8 <= nibble_at(v, 16) <= 11
}

/// Calls `uuid::Uuid::new_v4` and hands back its 128-bit value.
/// The uuid crate draws 128 random bits and then forces the version digit
/// to 4 and the variant bits to `10`; nothing else is known of the value.
#[verifier::external_body]
pub(crate) fn random_uuid_value() -> (v: u128)
    ensures
        is_v4_layout(v),
{
    uuid::Uuid::new_v4().as_u128()
}

/// Formats a UUID value with uuid's `Display` (`Uuid::from_u128(v).to_string()`),
/// which writes the hyphenated lower-case form.
#[verifier::external_body]
pub(crate) fn uuid_to_text(v: u128) -> (s: String)
    ensures
        s@ == uuid_hyphenated(v),
{
    uuid::Uuid::from_u128(v).to_string()
}

/// Unique identifier for a thought (the 128-bit value of a UUID)
#[derive(Debug, Clone, Copy, PartialEq, Eq, Hash, Structural)]
pub struct ThoughtId(pub u128);

impl ThoughtId {
    /// Create a new random thought ID
    pub fn new() -> (id: Self)
        ensures
            is_v4_layout(id.0),
    {
        ThoughtId(random_uuid_value())
    }

    /// The hyphenated textual form of this ID (what `Display` shows)
    pub fn to_string(&self) -> (s: String)
        ensures
            s@ == uuid_hyphenated(self.0),
    {
        uuid_to_text(self.0)
    }
}

/// Unique identifier for a memory window (the 128-bit value of a UUID)
#[derive(Debug, Clone, Copy, PartialEq, Eq, Hash, Structural)]
pub struct WindowId(pub u128);

impl WindowId {
    /// Create a new random window ID
    pub fn new() -> (id: Self)
        ensures
            is_v4_layout(id.0),
    {
        WindowId(random_uuid_value())
    }

    /// The hyphenated textual form of this ID (what `Display` shows)
    pub fn to_string(&self) -> (s: String)
        ensures
            s@ == uuid_hyphenated(self.0),
    {
        uuid_to_text(self.0)
    }
}

impl Default for WindowId {
    /// A new random window ID
    fn default() -> (id: Self)
        ensures
            is_v4_layout(id.0),
    {
        WindowId::new()
    }
}

// ---------------------------------------------------------------------------
// Content
// ---------------------------------------------------------------------------

/// Pre-linguistic content - NOT words
///
/// TMI models thought before language. Content represents raw patterns,
/// symbols, and relations that exist before linguistic expression.
#[derive(Debug, PartialEq)]
pub enum Content {
    /// Raw binary patterns (numbers, signals, sensory data)
    Raw(Vec<u8>),
    /// Abstract symbol (not a word - a pre-linguistic concept)
    Symbol {
        /// Unique identifier for this symbol
        id: String,
        /// Binary representation
        data: Vec<u8>,
    },
    /// Relational structure (subject-predicate-object)
    Relation {
        /// Subject of the relation
        subject: Box<Content>,
        /// Type of relation (e.g., "causes", "contains", "resembles")
        predicate: String,
        /// Object of the relation
        object: Box<Content>,
    },
    /// Composite of multiple content elements
    Composite(Vec<Content>),
    /// Empty/null content
    Empty,
}

/// Mathematical model of `Content`: sequences in place of vectors and strings.
pub enum ContentView {
    Raw(Seq<u8>),
    Symbol { id: Seq<char>, data: Seq<u8> },
    Relation { subject: Box<ContentView>, predicate: Seq<char>, object: Box<ContentView> },
    Composite(Seq<ContentView>),
    Empty,
}

/// The model of a content value.
pub open spec fn content_view(c: Content) -> ContentView
    decreases c,
{
    match c {
        Content::Raw(d) => ContentView::Raw(d@),
        Content::Symbol { id, data } => ContentView::Symbol { id: id@, data: data@ },
        Content::Relation { subject, predicate, object } => ContentView::Relation {
            subject: Box::new(content_view(*subject)),
            predicate: predicate@,
            object: Box::new(content_view(*object)),
        },
        Content::Composite(items) => ContentView::Composite(content_seq_view(items@)),
        Content::Empty => ContentView::Empty,
    }
}

/// The models of a sequence of content values, element by element.
pub open spec fn content_seq_view(s: Seq<Content>) -> Seq<ContentView>
    decreases s,
{
    if s.len() == 0 {
        Seq::empty()
    } else {
        content_seq_view(s.drop_last()).push(content_view(s.last()))
    }
}

impl View for Content {
    type V = ContentView;

    open spec fn view(&self) -> ContentView {
        content_view(*self)
    }
}

/// `char::is_whitespace`: the Unicode `White_Space` property.
pub open spec fn is_white_space(c: char) -> bool {
    ||| ('\u{9}' <= c && c <= '\u{d}')
    ||| c == ' '
    ||| c == '\u{85}'
    ||| c == '\u{a0}'
    ||| c == '\u{1680}'
    ||| ('\u{2000}' <= c && c <= '\u{200a}')
    ||| c == '\u{2028}'
    ||| c == '\u{2029}'
    ||| c == '\u{202f}'
    ||| c == '\u{205f}'
    ||| c == '\u{3000}'
}

/// Drop leading white space.
pub open spec fn trim_start(s: Seq<char>) -> Seq<char>
    decreases s.len(),
{
    if s.len() > 0 && is_white_space(s[0]) {
        trim_start(s.drop_first())
    } else {
        s
    }
}

/// Drop trailing white space.
pub open spec fn trim_end(s: Seq<char>) -> Seq<char>
    decreases s.len(),
{
    if s.len() > 0 && is_white_space(s.last()) {
        trim_end(s.drop_last())
    } else {
        s
    }
}

/// `str::trim`: drop leading and trailing white space.
pub open spec fn trim(s: Seq<char>) -> Seq<char> {
    trim_end(trim_start(s))
}

/// The parts joined with single spaces (`[String]::join(" ")`).
pub open spec fn join_with_space(parts: Seq<Seq<char>>) -> Seq<char>
    decreases parts.len(),
{
    if parts.len() == 0 {
        Seq::empty()
    } else if parts.len() == 1 {
        parts[0]
    } else {
        join_with_space(parts.drop_last()) + seq![' '] + parts.last()
    }
}

/// Text of a content model for embedding; `None` where the content has no
/// semantic meaning (symbols, raw patterns, empty content, and composites
/// with no embeddable part).
pub open spec fn embedding_text(c: ContentView) -> Option<Seq<char>>
    decreases c,
{
    match c {
        ContentView::Relation { subject, predicate, object } => {
            let subj = match embedding_text(*subject) {
                Some(t) => t,
                None => Seq::empty(),
            };
            let obj = match embedding_text(*object) {
                Some(t) => t,
                None => Seq::empty(),
            };
            let text = trim(subj + seq![' '] + predicate + seq![' '] + obj);
            if text.len() == 0 || text == predicate {
                Some(predicate)
            } else {
                Some(text)
            }
        },
        ContentView::Composite(items) => {
            let parts = embeddable_parts(items);
            if parts.len() == 0 {
                None
            } else {
                Some(join_with_space(parts))
            }
        },
        _ => None,
    }
}

/// Embedding texts of the embeddable items, in order.
pub open spec fn embeddable_parts(items: Seq<ContentView>) -> Seq<Seq<char>>
    decreases items,
{
    if items.len() == 0 {
        Seq::empty()
    } else {
        let rest = embeddable_parts(items.drop_last());
        match embedding_text(items.last()) {
            Some(t) => rest.push(t),
            None => rest,
        }
    }
}


// ---------------------------------------------------------------------------
// Laws of embedding text
// ---------------------------------------------------------------------------

/// Symbols, raw patterns and empty content carry no text for embedding:
/// only relations and composites can.
pub proof fn lemma_only_relations_and_composites_embed(c: ContentView)
    ensures
        embedding_text(c) is Some ==> (c is Relation || c is Composite),
{
}

/// A relation always has text for embedding (at least its predicate).
pub proof fn lemma_relation_always_embeds(c: ContentView)
    requires
        c is Relation,
    ensures
        embedding_text(c) is Some,
{
}

proof fn lemma_trim_start_pad_end(p: Seq<char>)
    ensures
        trim_start(p + seq![' ']) == (if trim_start(p).len() == 0 {
            Seq::<char>::empty()
        } else {
            trim_start(p) + seq![' ']
        }),
    decreases p.len(),
{
    let q = p + seq![' '];
    if p.len() == 0 {
        assert(q =~= seq![' ']);
        assert(is_white_space(q[0]));
        assert(q.drop_first() =~= Seq::<char>::empty());
        assert(trim_start(q) == trim_start(Seq::<char>::empty()));
    } else if is_white_space(p[0]) {
        assert(q[0] == p[0]);
        assert(q.drop_first() =~= p.drop_first() + seq![' ']);
        lemma_trim_start_pad_end(p.drop_first());
    } else {
        assert(q[0] == p[0]);
        assert(trim_start(q) == q);
        assert(trim_start(p) == p);
    }
}

proof fn lemma_trim_end_pad(t: Seq<char>)
    ensures
        trim_end(t + seq![' ']) == trim_end(t),
{
    assert((t + seq![' ']).drop_last() =~= t);
}

/// Surrounding a text with single spaces does not change its trimmed form.
pub proof fn lemma_trim_of_space_padded(p: Seq<char>)
    ensures
        trim(seq![' '] + p + seq![' ']) == trim(p),
{
    let padded = seq![' '] + p + seq![' '];
    assert(padded.drop_first() =~= p + seq![' ']);
    lemma_trim_start_pad_end(p);
    if trim_start(p).len() > 0 {
        lemma_trim_end_pad(trim_start(p));
    }
}

/// A relation whose subject and object carry no text embeds as its
/// predicate, trimmed of surrounding white space; a predicate that is all
/// white space is kept as it is.
pub proof fn lemma_relation_of_textless_parts(c: ContentView)
    requires
        c is Relation,
        embedding_text(*c->subject) is None,
        embedding_text(*c->object) is None,
    ensures
        embedding_text(c) == Some(
            if trim(c->predicate).len() == 0 {
                c->predicate
            } else {
                trim(c->predicate)
            },
        ),
{
    let p = c->predicate;
    assert(Seq::<char>::empty() + seq![' '] + p + seq![' '] + Seq::<char>::empty() =~= seq![' ']
        + p + seq![' ']);
    lemma_trim_of_space_padded(p);
}

/// `e` is the end of `r`.
pub open spec fn ends_with(r: Seq<char>, e: Seq<char>) -> bool {
    e.len() <= r.len() && r.subrange(r.len() - e.len(), r.len() as int) == e
}

/// `b` is the beginning of `r`.
pub open spec fn starts_with(r: Seq<char>, b: Seq<char>) -> bool {
    b.len() <= r.len() && r.take(b.len() as int) == b
}

proof fn lemma_trim_end_concat(p: Seq<char>, q: Seq<char>)
    ensures
        trim_end(q).len() > 0 ==> trim_end(p + q) == p + trim_end(q),
        trim_end(q).len() == 0 ==> trim_end(p + q) == trim_end(p),
    decreases q.len(),
{
    if q.len() == 0 {
        assert(p + q =~= p);
    } else if is_white_space(q.last()) {
        assert((p + q).drop_last() =~= p + q.drop_last());
        assert((p + q).last() == q.last());
        lemma_trim_end_concat(p, q.drop_last());
    } else {
        assert((p + q).last() == q.last());
    }
}

proof fn lemma_trim_start_concat(p: Seq<char>, q: Seq<char>)
    ensures
        trim_start(p).len() > 0 ==> trim_start(p + q) == trim_start(p) + q,
        trim_start(p).len() == 0 ==> trim_start(p + q) == trim_start(q),
    decreases p.len(),
{
    if p.len() == 0 {
        assert(p + q =~= q);
    } else if is_white_space(p[0]) {
        assert((p + q).drop_first() =~= p.drop_first() + q);
        assert((p + q)[0] == p[0]);
        lemma_trim_start_concat(p.drop_first(), q);
    } else {
        assert((p + q)[0] == p[0]);
    }
}

proof fn lemma_trim_start_is_end(t: Seq<char>)
    ensures
        trim_start(t).len() <= t.len(),
        t.subrange(t.len() - trim_start(t).len(), t.len() as int) == trim_start(t),
    decreases t.len(),
{
    if t.len() > 0 && is_white_space(t[0]) {
        lemma_trim_start_is_end(t.drop_first());
        assert(t.subrange(t.len() - trim_start(t).len(), t.len() as int) =~= t.drop_first().subrange(
            t.drop_first().len() - trim_start(t).len(),
            t.drop_first().len() as int,
        ));
    } else {
        assert(t.subrange(0, t.len() as int) =~= t);
    }
}

proof fn lemma_trim_end_is_start(t: Seq<char>)
    ensures
        trim_end(t).len() <= t.len(),
        t.take(trim_end(t).len() as int) == trim_end(t),
    decreases t.len(),
{
    if t.len() > 0 && is_white_space(t.last()) {
        lemma_trim_end_is_start(t.drop_last());
        assert(t.take(trim_end(t).len() as int) =~= t.drop_last().take(trim_end(t).len() as int));
    } else {
        assert(t.take(t.len() as int) =~= t);
    }
}

/// Text with something to show at its end keeps that at the end once the
/// whole is trimmed: `trim(y + t)` ends with `trim(t)`.
pub proof fn lemma_trim_keeps_end(y: Seq<char>, t: Seq<char>)
    requires
        trim(t).len() > 0,
    ensures
        ends_with(trim(y + t), trim(t)),
{
    let t0 = trim_start(t);
    lemma_trim_start_is_end(t);
    let w = t.len() - t0.len();
    assert(t =~= t.take(w) + t0);
    lemma_trim_start_concat(y, t);
    let qp = if trim_start(y).len() > 0 {
        trim_start(y) + t.take(w)
    } else {
        Seq::<char>::empty()
    };
    if trim_start(y).len() > 0 {
        assert(trim_start(y + t) =~= qp + t0);
    } else {
        assert(trim_start(y + t) =~= qp + t0);
    }
    lemma_trim_end_concat(qp, t0);
    let r = qp + trim(t);
    assert(trim(y + t) == r);
    assert(r.subrange(r.len() - trim(t).len(), r.len() as int) =~= trim(t));
}

/// Text with something to show at its start keeps that at the start once
/// the whole is trimmed: `trim(s + z)` starts with `trim(s)`.
pub proof fn lemma_trim_keeps_start(s: Seq<char>, z: Seq<char>)
    requires
        trim(s).len() > 0,
    ensures
        starts_with(trim(s + z), trim(s)),
{
    let s0 = trim_start(s);
    assert(s0.len() > 0);
    lemma_trim_start_concat(s, z);
    assert(trim_start(s + z) == s0 + z);
    lemma_trim_end_concat(s0, z);
    lemma_trim_end_is_start(s0);
    if trim_end(z).len() > 0 {
        let r = s0 + trim_end(z);
        assert(r.take(trim(s).len() as int) =~= s0.take(trim(s).len() as int));
    } else {
        assert(trim(s + z) == trim(s));
        assert(trim(s).take(trim(s).len() as int) =~= trim(s));
    }
}

/// A relation whose object has text keeps that text, trimmed, at the end of
/// its own text, whatever its subject is.
pub proof fn lemma_relation_ends_with_object_text(c: ContentView, t: Seq<char>)
    requires
        c is Relation,
        embedding_text(*c->object) == Some(t),
        trim(t).len() > 0,
    ensures
        embedding_text(c) matches Some(r) && ends_with(r, trim(t)),
{
    let subj = match embedding_text(*c->subject) {
        Some(x) => x,
        None => Seq::empty(),
    };
    let y = subj + seq![' '] + c->predicate + seq![' '];
    assert(subj + seq![' '] + c->predicate + seq![' '] + t == y + t);
    lemma_trim_keeps_end(y, t);
}

/// A relation whose subject has text starts its own text with the
/// subject's text, trimmed, whatever its object is.
pub proof fn lemma_relation_starts_with_subject_text(c: ContentView, s: Seq<char>)
    requires
        c is Relation,
        embedding_text(*c->subject) == Some(s),
        trim(s).len() > 0,
    ensures
        embedding_text(c) matches Some(r) && starts_with(r, trim(s)),
{
    let obj = match embedding_text(*c->object) {
        Some(x) => x,
        None => Seq::empty(),
    };
    let z = seq![' '] + c->predicate + seq![' '] + obj;
    assert(s + seq![' '] + c->predicate + seq![' '] + obj =~= s + z);
    lemma_trim_keeps_start(s, z);
}

/// A relation whose subject has no text and whose object has text `t`
/// embeds as ` predicate t`, trimmed (or as the bare predicate when that is
/// empty or is the predicate itself).
pub proof fn lemma_relation_of_textless_subject(c: ContentView, t: Seq<char>)
    requires
        c is Relation,
        embedding_text(*c->subject) is None,
        embedding_text(*c->object) == Some(t),
    ensures
        ({
            let text = trim(seq![' '] + c->predicate + seq![' '] + t);
            embedding_text(c) == Some(
                if text.len() == 0 || text == c->predicate {
                    c->predicate
                } else {
                    text
                },
            )
        }),
{
    assert(Seq::<char>::empty() + seq![' '] + c->predicate + seq![' '] + t =~= seq![' ']
        + c->predicate + seq![' '] + t);
}

/// A composite with one more item: an item without text changes nothing;
/// an item with text `t` is joined to the composite's text with one space,
/// or is the whole text when the composite had none.
pub proof fn lemma_composite_push(items: Seq<ContentView>, x: ContentView)
    ensures
        embedding_text(x) is None ==> embedding_text(ContentView::Composite(items.push(x)))
            == embedding_text(ContentView::Composite(items)),
        embedding_text(x) matches Some(t) ==> embedding_text(
            ContentView::Composite(items.push(x)),
        ) == Some(
            match embedding_text(ContentView::Composite(items)) {
                Some(a) => a + seq![' '] + t,
                None => t,
            },
        ),
{
    assert(items.push(x).drop_last() =~= items);
    assert(items.push(x).last() == x);
    let parts = embeddable_parts(items);
    match embedding_text(x) {
        Some(t) => {
            assert(embeddable_parts(items.push(x)) == parts.push(t));
            assert(parts.push(t).drop_last() =~= parts);
            if parts.len() == 0 {
                assert(parts.push(t)[0] == t);
            }
        },
        None => {
            assert(embeddable_parts(items.push(x)) == parts);
        },
    }
}

/// `char::is_whitespace`
fn is_white_space_char(c: char) -> (r: bool)
    ensures
        r == is_white_space(c),
{
    ('\u{9}' <= c && c <= '\u{d}') || c == ' ' || c == '\u{85}' || c == '\u{a0}' || c
        == '\u{1680}' || ('\u{2000}' <= c && c <= '\u{200a}') || c == '\u{2028}' || c
        == '\u{2029}' || c == '\u{202f}' || c == '\u{205f}' || c == '\u{3000}'
}

/// `str::trim` followed by `to_string`
fn trim_to_string(s: &str) -> (r: String)
    ensures
        r@ == trim(s@),
{
    let n = s.unicode_len();
    let mut start: usize = 0;
    assert(s@.subrange(0, n as int) =~= s@);
    while start < n && is_white_space_char(s.get_char(start))
        invariant
            n == s@.len(),
            start <= n,
            trim_start(s@) == trim_start(s@.subrange(start as int, n as int)),
        decreases n - start,
    {
        assert(s@.subrange(start as int, n as int).drop_first() =~= s@.subrange(
            start + 1,
            n as int,
        ));
        start = start + 1;
    }
    assert(trim_start(s@) == s@.subrange(start as int, n as int));
    let mut end: usize = n;
    while end > start && is_white_space_char(s.get_char(end - 1))
        invariant
            n == s@.len(),
            start <= end <= n,
            trim(s@) == trim_end(s@.subrange(start as int, end as int)),
        decreases end - start,
    {
        assert(s@.subrange(start as int, end as int).drop_last() =~= s@.subrange(
            start as int,
            end - 1,
        ));
        end = end - 1;
    }
    let sub = s.substring_char(start, end);
    String::from_str(sub)
}

/// The textual models of a sequence of strings.
pub open spec fn strings_view(v: Seq<String>) -> Seq<Seq<char>> {
    v.map_values(|s: String| s@)
}

impl Content {
    /// Create raw content from bytes
    pub fn raw(data: Vec<u8>) -> (c: Self)
        ensures
            c@ == ContentView::Raw(data@),
    {
        Content::Raw(data)
    }

    /// Create a symbol
    pub fn symbol(id: &str, data: Vec<u8>) -> (c: Self)
        ensures
            c@ == (ContentView::Symbol { id: id@, data: data@ }),
    {
        Content::Symbol { id: String::from_str(id), data }
    }

    /// Create a relation
    pub fn relation(subject: Self, predicate: &str, object: Self) -> (c: Self)
        ensures
            c@ == (ContentView::Relation {
                subject: Box::new(subject@),
                predicate: predicate@,
                object: Box::new(object@),
            }),
    {
        Content::Relation {
            subject: Box::new(subject),
            predicate: String::from_str(predicate),
            object: Box::new(object),
        }
    }

    /// Check if content is empty
    pub fn is_empty(&self) -> (r: bool)
        ensures
            r <==> (self@ is Empty),
    {
        match self {
            Content::Empty => true,
            _ => false,
        }
    }

    /// Check if content is embeddable (has semantic meaning): only
    /// relations and composites are.
    pub fn is_embeddable(&self) -> (r: bool)
        ensures
            r <==> (self@ is Relation || self@ is Composite),
    {
        match self {
            Content::Relation { .. } => true,
            Content::Composite(_) => true,
            _ => false,
        }
    }

    /// Convert content to text suitable for embedding.
    ///
    /// `None` for symbols, raw patterns and empty content; a relation gives
    /// "subject predicate object" (trimmed, or just the predicate where the
    /// subject and object carry no text); a composite joins the texts of its
    /// embeddable items with spaces, or gives `None` if none has any.
    pub fn to_embedding_text(&self) -> (r: Option<String>)
        ensures
            match r {
                Some(t) => embedding_text(self@) == Some(t@),
                None => embedding_text(self@) is None,
            },
        decreases self,
    {
        match self {
            Content::Relation { subject, predicate, object } => {
                let subj = match subject.to_embedding_text() {
                    Some(t) => t,
                    None => String::new(),
                };
                let obj = match object.to_embedding_text() {
                    Some(t) => t,
                    None => String::new(),
                };
                let mut text = subj;
                text.append(" ");
                text.append(predicate.as_str());
                text.append(" ");
                text.append(obj.as_str());
                proof {
                    reveal_strlit(" ");
                }
                let t = trim_to_string(text.as_str());
                assert(self@ == (ContentView::Relation {
                    subject: Box::new(subject@),
                    predicate: predicate@,
                    object: Box::new(object@),
                }));
                assert(text@ =~= (match embedding_text(subject@) {
                    Some(x) => x,
                    None => Seq::empty(),
                }) + seq![' '] + predicate@ + seq![' '] + (match embedding_text(object@) {
                    Some(x) => x,
                    None => Seq::empty(),
                }));
                if t.as_str().is_empty() || t == *predicate {
                    Some(predicate.clone())
                } else {
                    Some(t)
                }
            },
            Content::Composite(items) => {
                let ghost iv = items@;
                let mut parts: Vec<String> = Vec::new();
                let mut i: usize = 0;
                while i < items.len()
                    invariant
                        self is Composite,
                        self->Composite_0 == *items,
                        iv == items@,
                        0 <= i <= items.len(),
                        strings_view(parts@) == embeddable_parts(
                            content_seq_view(items@.take(i as int)),
                        ),
                    decreases items.len() - i,
                {
                    let ghost before = content_seq_view(items@.take(i as int));
                    assert(items@.take(i + 1).drop_last() =~= items@.take(i as int));
                    assert(content_seq_view(items@.take(i + 1)) == before.push(
                        content_view(items@[i as int]),
                    ));
                    assert(before.push(content_view(items@[i as int])).drop_last() =~= before);
                    proof {
                        assert(decreases_to!(*items => items[i as int]));
                        assert(decreases_to!(*self => self->Composite_0));
                        assert(decreases_to!(*self => items[i as int]));
                    }
                    match items[i].to_embedding_text() {
                        Some(t) => {
                            parts.push(t);
                            assert(strings_view(parts@) =~= strings_view(
                                parts@.drop_last(),
                            ).push(parts@.last()@));
                        },
                        None => {},
                    }
                    i = i + 1;
                }
                assert(items@.take(items@.len() as int) =~= items@);
                if parts.len() == 0 {
                    None
                } else {
                    let mut out = String::new();
                    let mut j: usize = 0;
                    while j < parts.len()
                        invariant
                            0 <= j <= parts.len(),
                            parts.len() > 0,
                            out@ == (if j == 0 {
                                Seq::empty()
                            } else {
                                join_with_space(strings_view(parts@).take(j as int))
                            }),
                        decreases parts.len() - j,
                    {
                        if j > 0 {
                            out.append(" ");
                        }
                        out.append(parts[j].as_str());
                        proof {
                            reveal_strlit(" ");
                            let pv = strings_view(parts@);
                            assert(pv.take(j + 1).drop_last() =~= pv.take(j as int));
                            if j == 0 {
                                assert(pv.take(1) =~= seq![pv[0]]);
                                assert(out@ =~= pv[0]);
                            } else {
                                assert(out@ =~= join_with_space(pv.take(j as int)) + seq![' ']
                                    + pv[j as int]);
                            }
                        }
                        j = j + 1;
                    }
                    assert(strings_view(parts@).take(parts.len() as int) =~= strings_view(
                        parts@,
                    ));
                    Some(out)
                }
            },
            _ => None,
        }
    }
}

impl Clone for Content {
    /// Deep copy of the content tree
    fn clone(&self) -> (r: Self)
        ensures
            r@ == self@,
        decreases self,
    {
        match self {
            Content::Raw(d) => {
                let d2 = d.clone();
                assert(d2@ =~= d@);
                Content::Raw(d2)
            },
            Content::Symbol { id, data } => {
                let d2 = data.clone();
                assert(d2@ =~= data@);
                Content::Symbol { id: id.clone(), data: d2 }
            },
            Content::Relation { subject, predicate, object } => {
                let s = (**subject).clone();
                let o = (**object).clone();
                Content::Relation {
                    subject: Box::new(s),
                    predicate: predicate.clone(),
                    object: Box::new(o),
                }
            },
            Content::Composite(items) => {
                let mut v: Vec<Content> = Vec::new();
                let mut i: usize = 0;
                while i < items.len()
                    invariant
                        self is Composite,
                        self->Composite_0 == *items,
                        0 <= i <= items.len(),
                        content_seq_view(v@) == content_seq_view(items@.take(i as int)),
                    decreases items.len() - i,
                {
                    let ghost prev = v@;
                    proof {
                        assert(decreases_to!(*items => items[i as int]));
                        assert(decreases_to!(*self => self->Composite_0));
                        assert(decreases_to!(*self => items[i as int]));
                    }
                    let c = items[i].clone();
                    v.push(c);
                    assert(v@.drop_last() =~= prev);
                    assert(items@.take(i + 1).drop_last() =~= items@.take(i as int));
                    i = i + 1;
                }
                assert(items@.take(items@.len() as int) =~= items@);
                Content::Composite(v)
            },
            Content::Empty => Content::Empty,
        }
    }
}

impl Default for Content {
    /// Empty content
    fn default() -> (c: Self)
        ensures
            c@ is Empty,
    {
        Content::Empty
    }
}


// ---------------------------------------------------------------------------
// Memory windows
// ---------------------------------------------------------------------------

/// A memory window ("Janela da Memória"): labelled or not, open or closed,
/// holding content in the order it came. The window's salience score is
/// made of floating-point values and is not held here.
#[derive(Debug)]
pub struct Window {
    /// Unique identifier
    pub id: WindowId,
    /// Optional label for this window
    pub label: Option<String>,
    /// Contents of this window
    pub contents: Vec<Content>,
    /// When this window was opened
    pub opened_at: Timestamp,
    /// Whether this window is currently active (open)
    pub is_open: bool,
}

impl Window {
    /// A new, empty, open window without a label, opened now
    pub fn new() -> (w: Self)
        ensures
            is_v4_layout(w.id.0),
            w.label is None,
            w.contents@.len() == 0,
            w.is_open,
    {
        let now = utc_now();
        Window::opened(WindowId::new(), now)
    }

    /// A new, empty, open window without a label, with the given ID, opened
    /// at `now`
    pub fn opened(id: WindowId, now: Timestamp) -> (w: Self)
        ensures
            w.id == id,
            w.label is None,
            w.contents@.len() == 0,
            w.opened_at == now,
            w.is_open,
    {
        Window { id, label: None, contents: Vec::new(), opened_at: now, is_open: true }
    }

    /// The same window with a label
    pub fn with_label(self, label: String) -> (w: Self)
        ensures
            w.label == Some(label),
            w.id == self.id,
            w.contents@ == self.contents@,
            w.opened_at == self.opened_at,
            w.is_open == self.is_open,
    {
        let mut w = self;
        w.label = Some(label);
        w
    }

    /// Add content at the end of this window
    pub fn push(&mut self, content: Content)
        ensures
            final(self).contents@ == old(self).contents@.push(content),
            final(self).id == old(self).id,
            final(self).label == old(self).label,
            final(self).opened_at == old(self).opened_at,
            final(self).is_open == old(self).is_open,
    {
        self.contents.push(content);
    }

    /// Close this window; nothing else changes
    pub fn close(&mut self)
        ensures
            !final(self).is_open,
            final(self).id == old(self).id,
            final(self).label == old(self).label,
            final(self).contents@ == old(self).contents@,
            final(self).opened_at == old(self).opened_at,
    {
        self.is_open = false;
    }
}

impl Default for Window {
    /// A new, empty, open window without a label, opened now
    fn default() -> (w: Self)
        ensures
            is_v4_layout(w.id.0),
            w.label is None,
            w.contents@.len() == 0,
            w.is_open,
    {
        Window::new()
    }
}

} // verus!
