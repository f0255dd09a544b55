//! Turning untrusted message text into safe, link-annotated markup.
//!
//! The text goes through three steps. The `ammonia` crate removes or escapes
//! whatever a markup document would act on. The `linkify` crate cuts the
//! cleaned text into consecutive spans, each either a link or plain text.
//! This module then writes every link span as a hyperlink to itself, leaves
//! the other spans as they are, and puts the whole into a `<pre>` container.
//!
//! What the two crates return is not modelled: [`ammonia_clean`] and
//! [`linkify_spans`] only name it. Everything after them is specified in
//! full by [`annotated`] and [`preformatted`].

use linkify::LinkFinder;
use linkify::LinkKind;
use vstd::prelude::*;

verus! {

/// What the link finder says a span of text is.
#[derive(Clone, Copy, Debug, PartialEq, Eq, Structural)]
pub enum SpanKind {
    /// Text that is not part of any link.
    Plain,
    /// A URL such as `https://example.org`.
    Url,
    /// An e-mail address such as `someone@example.org`.
    Email,
    /// A link of a kind that this library does not know. It is left as text.
    Other,
}

/// A piece of a text, with its kind.
#[derive(Debug)]
pub struct TextSpan {
    pub text: String,
    pub kind: SpanKind,
}

/// The mathematical value of a [`TextSpan`].
pub struct TextSpanView {
    pub text: Seq<char>,
    pub kind: SpanKind,
}

impl View for TextSpan {
    type V = TextSpanView;

    open spec fn view(&self) -> TextSpanView {
        TextSpanView { text: self.text@, kind: self.kind }
    }
}

/// The values of a sequence of spans, in the same order.
pub open spec fn span_views(spans: Seq<TextSpan>) -> Seq<TextSpanView> {
    spans.map_values(|span: TextSpan| span@)
}

/// Whether a span of this kind is written as a hyperlink.
pub open spec fn is_link(kind: SpanKind) -> bool {
    kind == SpanKind::Url || kind == SpanKind::Email
}

/// A hyperlink that points to `target` and shows `target`.
pub open spec fn anchor(target: Seq<char>) -> Seq<char> {
    "<a href=\""@ + target + "\">"@ + target + "</a>"@
}

/// The markup of one span: a hyperlink to itself for a link, the text
/// itself otherwise.
pub open spec fn annotated_span(span: TextSpanView) -> Seq<char> {
    if is_link(span.kind) {
        anchor(span.text)
    } else {
        span.text
    }
}

/// The markup of a sequence of spans: the markup of each span, one after
/// the other in the order of the spans.
pub open spec fn annotated(spans: Seq<TextSpanView>) -> Seq<char>
    decreases spans.len(),
{
    if spans.len() == 0 {
        Seq::<char>::empty()
    } else {
        annotated(spans.drop_last()) + annotated_span(spans.last())
    }
}

/// The texts of a sequence of spans, one after the other.
pub open spec fn joined_text(spans: Seq<TextSpanView>) -> Seq<char>
    decreases spans.len(),
{
    if spans.len() == 0 {
        Seq::<char>::empty()
    } else {
        joined_text(spans.drop_last()) + spans.last().text
    }
}

/// The container that keeps the white space of a message: `<pre>` before
/// the content and `</pre>` after it.
pub open spec fn preformatted(content: Seq<char>) -> Seq<char> {
    "<pre>"@ + content + "</pre>"@
}

/// What `ammonia::clean` returns for `text`. The result depends on the text
/// alone; nothing more is claimed of it.
pub uninterp spec fn ammonia_clean(text: Seq<char>) -> Seq<char>;

/// The spans that `linkify`'s `LinkFinder::new().spans(..)` yields for
/// `text`, in order. The result depends on the text alone. The one fact
/// stated of it, by [`find_spans`], is that the texts of the spans joined
/// give `text` back.
pub uninterp spec fn linkify_spans(text: Seq<char>) -> Seq<TextSpanView>;

/// The safe markup of a raw message text.
pub open spec fn sanitized(text: Seq<char>) -> Seq<char> {
    preformatted(annotated(linkify_spans(ammonia_clean(text))))
}

/// Whether `content` is what the sanitizer gives for some raw text.
pub open spec fn is_sanitized(content: Seq<char>) -> bool {
    exists|raw: Seq<char>| #[trigger] sanitized(raw) == content
}

/// Calls `ammonia::clean`, the HTML sanitizer with its conservative
/// defaults. Trusted: the result is the one that [`ammonia_clean`] names.
#[verifier::external_body]
fn clean_markup(text: &str) -> (cleaned: String)
    ensures
        cleaned@ == ammonia_clean(text@),
{
    ammonia::clean(text)
}

/// Calls `LinkFinder::new().spans(text)` of `linkify` and copies each span's
/// text and kind. Trusted: the spans are those that [`linkify_spans`] names,
/// and, as the crate documents, they are consecutive and together make up
/// the whole text.
#[verifier::external_body]
fn find_spans(text: &str) -> (spans: Vec<TextSpan>)
    ensures
        span_views(spans@) == linkify_spans(text@),
        joined_text(span_views(spans@)) == text@,
{
    LinkFinder::new()
        .spans(text)
        .map(|span| TextSpan {
            text: span.as_str().to_string(),
            kind: match span.kind() {
                None => SpanKind::Plain,
                Some(LinkKind::Url) => SpanKind::Url,
                Some(LinkKind::Email) => SpanKind::Email,
                Some(_) => SpanKind::Other,
            },
        })
        .collect()
}

/// Writes the spans as markup inside a `<pre>` container: each URL and each
/// e-mail address becomes a hyperlink to itself, every other span is copied.
pub fn render_spans(spans: &Vec<TextSpan>) -> (html: String)
    ensures
        html@ == preformatted(annotated(span_views(spans@))),
{
    let ghost views = span_views(spans@);
    let mut html = String::from_str("<pre>");
    let mut i: usize = 0;
    assert(views.take(0) =~= Seq::<TextSpanView>::empty());
    while i < spans.len()
        invariant
            i <= spans.len(),
            views == span_views(spans@),
            html@ == "<pre>"@ + annotated(views.take(i as int)),
        decreases spans.len() - i,
    {
        let span = &spans[i];
        let ghost before = html@;
        match span.kind {
            SpanKind::Url | SpanKind::Email => {
                html.append("<a href=\"");
                html.append(span.text.as_str());
                html.append("\">");
                html.append(span.text.as_str());
                html.append("</a>");
            },
            SpanKind::Plain | SpanKind::Other => {
                html.append(span.text.as_str());
            },
        }
        proof {
            let done = views.take(i as int + 1);
            assert(done.drop_last() =~= views.take(i as int));
            assert(done.last() == span@);
            assert(html@ =~= before + annotated_span(span@));
            assert(html@ =~= "<pre>"@ + annotated(done));
        }
        i = i + 1;
    }
    assert(views.take(i as int) =~= views);
    html.append("</pre>");
    html
}

/// Makes an untrusted message text safe to embed in a markup document:
/// markup is stripped or escaped, links are annotated, and the result is
/// wrapped in a `<pre>` container.
///
/// The spans that the link finder cuts the cleaned text into make up the
/// cleaned text, so where none of them is a link the result is the cleaned
/// text in its container, with nothing added, dropped or moved.
pub fn text2html(text: &str) -> (html: String)
    ensures
        html@ == sanitized(text@),
        is_sanitized(html@),
        joined_text(linkify_spans(ammonia_clean(text@))) == ammonia_clean(text@),
        (forall|i: int|
            0 <= i < linkify_spans(ammonia_clean(text@)).len() ==> !is_link(
                #[trigger] linkify_spans(ammonia_clean(text@))[i].kind,
            )) ==> html@ == preformatted(ammonia_clean(text@)),
{
    let cleaned = clean_markup(text);
    let spans = find_spans(cleaned.as_str());
    let html = render_spans(&spans);
    proof {
        assert(sanitized(text@) == html@);
        if forall|i: int|
            0 <= i < linkify_spans(ammonia_clean(text@)).len() ==> !is_link(
                #[trigger] linkify_spans(ammonia_clean(text@))[i].kind,
            ) {
            lemma_plain_spans_pass_unchanged(linkify_spans(ammonia_clean(text@)));
        }
    }
    html
}

/// The markup of two sequences of spans put together is the markup of the
/// first followed by the markup of the second: every span contributes its
/// own markup once, at its own place.
pub proof fn lemma_annotated_concat(front: Seq<TextSpanView>, back: Seq<TextSpanView>)
    ensures
        annotated(front + back) == annotated(front) + annotated(back),
    decreases back.len(),
{
    if back.len() == 0 {
        assert(front + back =~= front);
        assert(annotated(front) + annotated(back) =~= annotated(front));
    } else {
        lemma_annotated_concat(front, back.drop_last());
        assert((front + back).drop_last() =~= front + back.drop_last());
        assert((front + back).last() == back.last());
        assert(annotated(front + back) =~= annotated(front) + annotated(back));
    }
}

/// Where no span is a link, the markup of the spans is their text, unchanged
/// and in order.
pub proof fn lemma_plain_spans_pass_unchanged(spans: Seq<TextSpanView>)
    requires
        forall|i: int| 0 <= i < spans.len() ==> !is_link(#[trigger] spans[i].kind),
    ensures
        annotated(spans) == joined_text(spans),
    decreases spans.len(),
{
    if spans.len() > 0 {
        lemma_plain_spans_pass_unchanged(spans.drop_last());
    }
}

/// Whatever the content, the container starts with `<pre>`, ends with
/// `</pre>` and holds the content unchanged between the two.
pub proof fn lemma_preformatted_shape(content: Seq<char>)
    ensures
        preformatted(content).len() == content.len() + 11,
        preformatted(content).subrange(0, 5) == "<pre>"@,
        preformatted(content).subrange(5, 5 + content.len() as int) == content,
        preformatted(content).subrange(5 + content.len() as int, 11 + content.len() as int)
            == "</pre>"@,
{
    reveal_strlit("<pre>");
    reveal_strlit("</pre>");
    let whole = preformatted(content);
    assert(whole.subrange(0, 5) =~= "<pre>"@);
    assert(whole.subrange(5, 5 + content.len() as int) =~= content);
    assert(whole.subrange(5 + content.len() as int, 11 + content.len() as int) =~= "</pre>"@);
}

/// Sanitizing what the sanitizer gave is sanitizing like any other: the
/// result is again sanitizer output in a container of its own, namely the
/// container around what the two crates make of the first result. Whether
/// the first container is still inside is for the cleaning crate to decide
/// and is not claimed here.
pub proof fn lemma_sanitized_twice(text: Seq<char>)
    ensures
        is_sanitized(sanitized(sanitized(text))),
        sanitized(sanitized(text)) == preformatted(
            annotated(linkify_spans(ammonia_clean(sanitized(text)))),
        ),
        sanitized(sanitized(text)).len() >= 11,
        sanitized(sanitized(text)).subrange(0, 5) == "<pre>"@,
        sanitized(sanitized(text)).subrange(
            sanitized(sanitized(text)).len() - 6,
            sanitized(sanitized(text)).len() as int,
        ) == "</pre>"@,
{
    lemma_preformatted_shape(annotated(linkify_spans(ammonia_clean(sanitized(text)))));
}

} // verus!
