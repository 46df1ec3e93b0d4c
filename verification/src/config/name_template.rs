//! Name templates: literal text with placeholders for tags.
//!
//! A template is written as text in which `{kind:property}` stands for the
//! value of a tag, as in `{node:node.name}: {node:media.name}`. A `{` opens a
//! placeholder, which runs to the next `}`. Everything outside placeholders
//! is literal text.

use vstd::prelude::*;
use crate::config::error::{ParseError, ParseErrorView};
use crate::config::tag::{parse_tag_spec, Tag};
use crate::text::{chars_of, find_char, opt_owned_text, opt_text};

verus! {

/// One piece of a template.
#[derive(Clone, Debug, PartialEq, Eq)]
pub enum Segment {
    /// Text that is rendered as it stands.
    Literal(String),
    /// A reference to a tag, rendered as the tag's value.
    Tag(Tag),
}

/// The mathematical form of a [`Segment`].
pub enum SegmentView {
    Literal(Seq<char>),
    Tag(Tag),
}

impl View for Segment {
    type V = SegmentView;

    open spec fn view(&self) -> SegmentView {
        match self {
            Segment::Literal(s) => SegmentView::Literal(s@),
            Segment::Tag(tag) => SegmentView::Tag(*tag),
        }
    }
}

/// A parsed template: its segments in order.
#[derive(Clone, Debug, PartialEq, Eq)]
pub struct NameTemplate {
    segments: Vec<Segment>,
}

impl View for NameTemplate {
    type V = Seq<SegmentView>;

    closed spec fn view(&self) -> Seq<SegmentView> {
        self.segments@.map_values(|s: Segment| s@)
    }
}

/// The length of the literal text that `s` starts with: the position of its
/// first `{`, or its whole length.
pub open spec fn literal_len(s: Seq<char>) -> int {
    match s.index_of_first('{') {
        Some(n) => n,
        None => s.len() as int,
    }
}

/// Puts `segment` in front of a parsed remainder.
pub open spec fn prepend(
    segment: SegmentView,
    rest: Result<Seq<SegmentView>, ParseErrorView>,
) -> Result<Seq<SegmentView>, ParseErrorView> {
    match rest {
        Ok(segments) => Ok(seq![segment] + segments),
        Err(e) => Err(e),
    }
}

/// What the text of a template means: its segments, or the first error in
/// reading order.
pub open spec fn parse_spec(s: Seq<char>) -> Result<Seq<SegmentView>, ParseErrorView>
    decreases s.len(),
{
    if s.len() == 0 {
        Ok(Seq::empty())
    } else if s[0] == '{' {
        match s.index_of_first('}') {
            None => Err(ParseErrorView::Unclosed(s)),
            Some(close) => {
                proof {
                    s.index_of_first_ensures('}');
                }
                match parse_tag_spec(s.subrange(1, close)) {
                    Err(e) => Err(e),
                    Ok(tag) => prepend(SegmentView::Tag(tag), parse_spec(s.skip(close + 1))),
                }
            },
        }
    } else {
        proof {
            s.index_of_first_ensures('{');
        }
        let n = literal_len(s);
        prepend(SegmentView::Literal(s.take(n)), parse_spec(s.skip(n)))
    }
}

/// How one segment is written in the text of a template.
pub open spec fn segment_text(segment: SegmentView) -> Seq<char> {
    match segment {
        SegmentView::Literal(s) => s,
        SegmentView::Tag(tag) => seq!['{'] + tag.text() + seq!['}'],
    }
}

/// The text of the template made of `segments`.
pub open spec fn source_text(segments: Seq<SegmentView>) -> Seq<char>
    decreases segments.len(),
{
    if segments.len() == 0 {
        Seq::empty()
    } else {
        segment_text(segments[0]) + source_text(segments.drop_first())
    }
}

/// Whether `segments` is in the form that parsing gives: no literal is empty
/// or holds a `{`, and no literal follows another.
pub open spec fn canonical(segments: Seq<SegmentView>) -> bool {
    &&& forall|i: int|
        0 <= i < segments.len() ==> match #[trigger] segments[i] {
            SegmentView::Literal(s) => s.len() > 0 && !s.contains('{'),
            SegmentView::Tag(_) => true,
        }
    &&& forall|i: int|
        0 <= i < segments.len() - 1 ==> !((#[trigger] segments[i]) is Literal && segments[i
            + 1] is Literal)
}

/// The value of one segment under `values`.
pub open spec fn segment_value(
    segment: SegmentView,
    values: spec_fn(Tag) -> Option<Seq<char>>,
) -> Option<Seq<char>> {
    match segment {
        SegmentView::Literal(s) => Some(s),
        SegmentView::Tag(tag) => values(tag),
    }
}

/// What a template renders to when each tag has the value that `values`
/// gives it: the segments' values one after the other, or nothing as soon as
/// one tag has no value.
pub open spec fn render_spec(
    segments: Seq<SegmentView>,
    values: spec_fn(Tag) -> Option<Seq<char>>,
) -> Option<Seq<char>>
    decreases segments.len(),
{
    if segments.len() == 0 {
        Some(Seq::empty())
    } else {
        match render_spec(segments.drop_last(), values) {
            None => None,
            Some(front) => match segment_value(segments.last(), values) {
                None => None,
                Some(piece) => Some(front + piece),
            },
        }
    }
}

/// Whether `values` says what `resolve` returns for each tag that occurs in
/// `segments`.
pub open spec fn answers<'a, F: Fn(&Tag) -> Option<&'a String>>(
    segments: Seq<SegmentView>,
    resolve: F,
    values: spec_fn(Tag) -> Option<Seq<char>>,
) -> bool {
    forall|tag: Tag, found: Option<&'a String>|
        segments.contains(SegmentView::Tag(tag)) && #[trigger] resolve.ensures((&tag,), found)
            ==> opt_text(found) == values(tag)
}

/// Views the outcome of parsing a template.
pub open spec fn parsed_view(r: Result<NameTemplate, ParseError>) -> Result<
    Seq<SegmentView>,
    ParseErrorView,
> {
    match r {
        Ok(template) => Ok(template@),
        Err(e) => Err(e@),
    }
}

/// Joins a parsed front with what the remainder parses to.
pub open spec fn prepend_all(
    front: Seq<SegmentView>,
    rest: Result<Seq<SegmentView>, ParseErrorView>,
) -> Result<Seq<SegmentView>, ParseErrorView> {
    match rest {
        Ok(segments) => Ok(front + segments),
        Err(e) => Err(e),
    }
}

impl NameTemplate {
    /// Writes the template as text.
    pub fn to_text(&self) -> (out: String)
        ensures
            out@ == source_text(self@),
    {
        let mut out = String::new();
        let n: usize = self.segments.len();
        let mut i: usize = 0;
        assert(self@.skip(0) =~= self@);
        assert(out@ + source_text(self@) =~= source_text(self@));
        while i < n
            invariant
                n == self.segments@.len(),
                i <= n,
                out@ + source_text(self@.skip(i as int)) == source_text(self@),
            decreases n - i,
        {
            let ghost before = out@;
            let ghost rest = self@.skip(i as int);
            assert(rest.drop_first() =~= self@.skip(i + 1));
            assert(rest[0] == self.segments@[i as int]@);
            match &self.segments[i] {
                Segment::Literal(text) => {
                    out.append(text.as_str());
                },
                Segment::Tag(tag) => {
                    out.append("{");
                    out.append(tag.to_text().as_str());
                    out.append("}");
                    proof {
                        reveal_strlit("{");
                        reveal_strlit("}");
                        assert(out@ =~= before + segment_text(rest[0]));
                    }
                },
            }
            assert(out@ + source_text(self@.skip(i + 1)) =~= before + source_text(rest));
            i += 1;
        }
        assert(out@ + source_text(self@.skip(n as int)) =~= out@);
        out
    }

    /// Parses the text of a template.
    pub fn parse(source: &str) -> (r: Result<NameTemplate, ParseError>)
        ensures
            parsed_view(r) == parse_spec(source@),
    {
        let chars = chars_of(source);
        let n: usize = chars.len();
        let mut segments: Vec<Segment> = Vec::new();
        let mut i: usize = 0;
        assert(chars@.skip(0) =~= source@);
        proof {
            if let Ok(all) = parse_spec(source@) {
                assert(Seq::<SegmentView>::empty() + all =~= all);
            }
            assert(segments@.map_values(|s: Segment| s@) =~= Seq::<SegmentView>::empty());
        }
        while i < n
            invariant
                chars@ == source@,
                n == chars@.len(),
                i <= n,
                parse_spec(source@) == prepend_all(
                    segments@.map_values(|s: Segment| s@),
                    parse_spec(chars@.skip(i as int)),
                ),
            decreases n - i,
        {
            let ghost rest = chars@.skip(i as int);
            let ghost front = segments@.map_values(|s: Segment| s@);
            assert(rest =~= chars@.subrange(i as int, n as int));
            assert(rest[0] == chars@[i as int]);
            if chars[i] == '{' {
                match find_char(&chars, i, n, '}') {
                    None => {
                        return Err(
                            ParseError::Unclosed(source.substring_char(i, n).to_owned()),
                        );
                    },
                    Some(k) => {
                        let close: usize = i + k;
                        proof {
                            rest.index_of_first_ensures('}');
                            assert(rest.subrange(1, k as int) =~= chars@.subrange(
                                i + 1,
                                close as int,
                            ));
                            assert(rest.skip(k + 1) =~= chars@.skip(close + 1));
                        }
                        match Tag::parse_chars(source, &chars, i + 1, close) {
                            Err(e) => {
                                return Err(e);
                            },
                            Ok(tag) => {
                                segments.push(Segment::Tag(tag));
                                i = close + 1;
                                proof {
                                    let after = parse_spec(chars@.skip(i as int));
                                    let now = segments@.map_values(|s: Segment| s@);
                                    assert(now =~= front.push(SegmentView::Tag(tag)));
                                    if let Ok(tail) = after {
                                        assert(front + (seq![SegmentView::Tag(tag)] + tail)
                                            =~= now + tail);
                                    }
                                }
                            },
                        }
                    },
                }
            } else {
                let found = find_char(&chars, i, n, '{');
                let end: usize = match found {
                    Some(k) => i + k,
                    None => n,
                };
                proof {
                    rest.index_of_first_ensures('{');
                    assert(rest.take(end - i) =~= chars@.subrange(i as int, end as int));
                    assert(rest.skip(end - i) =~= chars@.skip(end as int));
                }
                let literal = source.substring_char(i, end).to_owned();
                segments.push(Segment::Literal(literal));
                i = end;
                proof {
                    let after = parse_spec(chars@.skip(i as int));
                    let now = segments@.map_values(|s: Segment| s@);
                    assert(now =~= front.push(SegmentView::Literal(literal@)));
                    if let Ok(tail) = after {
                        assert(front + (seq![SegmentView::Literal(literal@)] + tail) =~= now
                            + tail);
                    }
                }
            }
        }
        proof {
            assert(chars@.skip(i as int) =~= Seq::<char>::empty());
            assert(segments@.map_values(|s: Segment| s@) + Seq::<SegmentView>::empty()
                =~= segments@.map_values(|s: Segment| s@));
        }
        Ok(NameTemplate { segments })
    }

    /// Renders the template with the values that `resolve` finds for its
    /// tags. The result is the whole text, or nothing if any of the tags has
    /// no value.
    pub fn render<'a, F: Fn(&Tag) -> Option<&'a String>>(&self, resolve: F) -> (out: Option<
        String,
    >)
        requires
            forall|tag: Tag| #[trigger]
                self@.contains(SegmentView::Tag(tag)) ==> resolve.requires((&tag,)),
        ensures
            forall|values: spec_fn(Tag) -> Option<Seq<char>>|
                answers(self@, resolve, values) ==> opt_owned_text(out) == #[trigger] render_spec(
                    self@,
                    values,
                ),
    {
        let mut out = String::new();
        let n: usize = self.segments.len();
        let mut i: usize = 0;
        assert(self@.take(0) =~= Seq::<SegmentView>::empty());
        while i < n
            invariant
                n == self.segments@.len(),
                i <= n,
                forall|tag: Tag| #[trigger]
                    self@.contains(SegmentView::Tag(tag)) ==> resolve.requires((&tag,)),
                forall|values: spec_fn(Tag) -> Option<Seq<char>>|
                    answers(self@, resolve, values) ==> Some(out@) == #[trigger] render_spec(
                        self@.take(i as int),
                        values,
                    ),
            decreases n - i,
        {
            let ghost before = out@;
            assert(self@.take(i + 1).drop_last() =~= self@.take(i as int));
            assert(self@.take(i + 1).last() == self@[i as int]);
            assert(self@[i as int] == self.segments@[i as int]@);
            match &self.segments[i] {
                Segment::Literal(text) => {
                    out.append(text.as_str());
                    proof {
                        assert forall|values: spec_fn(Tag) -> Option<Seq<char>>|
                            answers(self@, resolve, values) implies Some(out@) == render_spec(
                            self@.take(i + 1),
                            values,
                        ) by {
                            assert(Some(before) == render_spec(self@.take(i as int), values));
                        }
                    }
                },
                Segment::Tag(tag) => {
                    assert(self@.contains(SegmentView::Tag(*tag)));
                    match resolve(tag) {
                        Some(value) => {
                            out.append(value.as_str());
                            proof {
                                assert forall|values: spec_fn(Tag) -> Option<Seq<char>>|
                                    answers(self@, resolve, values) implies Some(out@)
                                    == render_spec(self@.take(i + 1), values) by {
                                    assert(Some(before) == render_spec(
                                        self@.take(i as int),
                                        values,
                                    ));
                                }
                            }
                        },
                        None => {
                            proof {
                                assert forall|values: spec_fn(Tag) -> Option<Seq<char>>|
                                    answers(self@, resolve, values) implies render_spec(
                                    self@,
                                    values,
                                ).is_none() by {
                                    assert(Some(before) == render_spec(
                                        self@.take(i as int),
                                        values,
                                    ));
                                    assert(render_spec(self@.take(i + 1), values).is_none());
                                    Self::lemma_render_fails_on(self@, i + 1, values);
                                }
                            }
                            return None;
                        },
                    }
                },
            }
            i += 1;
        }
        assert(self@.take(n as int) =~= self@);
        Some(out)
    }

    /// Parsing undoes writing: the text of a template in canonical form
    /// parses, and gives that template.
    pub proof fn lemma_source_parses(segments: Seq<SegmentView>)
        requires
            canonical(segments),
        ensures
            parse_spec(source_text(segments)) == Ok::<Seq<SegmentView>, ParseErrorView>(segments),
        decreases segments.len(),
    {
        if segments.len() == 0 {
            assert(segments =~= Seq::empty());
        } else {
            let s = source_text(segments);
            let rest = segments.drop_first();
            let tail = source_text(rest);
            assert(canonical(rest)) by {
                assert forall|i: int| 0 <= i < rest.len() implies match #[trigger] rest[i] {
                    SegmentView::Literal(l) => l.len() > 0 && !l.contains('{'),
                    SegmentView::Tag(_) => true,
                } by {
                    assert(rest[i] == segments[i + 1]);
                }
                assert forall|i: int| 0 <= i < rest.len() - 1 implies !((#[trigger] rest[i])
                    is Literal && rest[i + 1] is Literal) by {
                    assert(rest[i] == segments[i + 1]);
                    assert(rest[i + 1] == segments[i + 2]);
                }
            }
            Self::lemma_source_parses(rest);
            assert(seq![segments[0]] + rest =~= segments);
            match segments[0] {
                SegmentView::Tag(tag) => {
                    let text = tag.text();
                    let close = text.len() as int + 1;
                    tag.lemma_text_parses();
                    s.index_of_first_ensures('}');
                    assert(s[0] == '{');
                    assert(s[close] == '}');
                    assert(s.contains('}'));
                    let found = s.index_of_first('}').unwrap();
                    if 0 < found < close {
                        assert(text[found - 1] == '}');
                        assert(text.contains('}'));
                    }
                    assert(found == close);
                    assert(s.subrange(1, close) =~= text);
                    assert(s.skip(close + 1) =~= tail);
                },
                SegmentView::Literal(l) => {
                    let n = l.len() as int;
                    assert(segments[0] is Literal);
                    assert(n > 0 && !l.contains('{'));
                    assert(s[0] == l[0]);
                    if s[0] == '{' {
                        assert(l.contains('{'));
                    }
                    s.index_of_first_ensures('{');
                    if rest.len() == 0 {
                        assert(s =~= l);
                    } else {
                        assert(rest[0] == segments[1]);
                        assert(rest[0] is Tag);
                        assert(tail[0] == '{');
                        assert(s[n] == '{');
                        assert(s.contains('{'));
                        let found = s.index_of_first('{').unwrap();
                        if found < n {
                            assert(l[found] == '{');
                            assert(l.contains('{'));
                        }
                        assert(found == n);
                    }
                    assert(literal_len(s) == n);
                    assert(s.take(n) =~= l);
                    assert(s.skip(n) =~= tail);
                },
            }
        }
    }

    /// Writing undoes parsing: what a text parses to is in canonical form,
    /// and is written as that text.
    pub proof fn lemma_parsed_source(s: Seq<char>, segments: Seq<SegmentView>)
        requires
            parse_spec(s) == Ok::<Seq<SegmentView>, ParseErrorView>(segments),
        ensures
            source_text(segments) == s,
            canonical(segments),
        decreases s.len(),
    {
        if s.len() == 0 {
            assert(source_text(segments) =~= s);
        } else if s[0] == '{' {
            s.index_of_first_ensures('}');
            let close = s.index_of_first('}').unwrap();
            let body = s.subrange(1, close);
            let tag = parse_tag_spec(body)->Ok_0;
            let rest = parse_spec(s.skip(close + 1))->Ok_0;
            Tag::lemma_parsed_text(body, tag);
            Self::lemma_parsed_source(s.skip(close + 1), rest);
            assert(segments == seq![SegmentView::Tag(tag)] + rest);
            assert(segments.drop_first() =~= rest);
            assert(source_text(segments) =~= s);
            assert forall|i: int| 0 <= i < segments.len() implies match #[trigger] segments[i] {
                SegmentView::Literal(l) => l.len() > 0 && !l.contains('{'),
                SegmentView::Tag(_) => true,
            } by {
                if i > 0 {
                    assert(segments[i] == rest[i - 1]);
                }
            }
            assert forall|i: int| 0 <= i < segments.len() - 1 implies !((
            #[trigger] segments[i]) is Literal && segments[i + 1] is Literal) by {
                if i > 0 {
                    assert(segments[i] == rest[i - 1]);
                    assert(segments[i + 1] == rest[i]);
                }
            }
        } else {
            s.index_of_first_ensures('{');
            let n = literal_len(s);
            let l = s.take(n);
            let after = s.skip(n);
            let rest = parse_spec(after)->Ok_0;
            Self::lemma_parsed_source(after, rest);
            assert(segments == seq![SegmentView::Literal(l)] + rest);
            assert(segments.drop_first() =~= rest);
            assert(source_text(segments) =~= s);
            if l.contains('{') {
                let j = choose|j: int| 0 <= j < l.len() && l[j] == '{';
                assert(s[j] == '{');
            }
            if rest.len() > 0 {
                assert(after.len() > 0);
                assert(after[0] == s[n]);
                assert(rest[0] is Tag);
            }
            assert forall|i: int| 0 <= i < segments.len() implies match #[trigger] segments[i] {
                SegmentView::Literal(l) => l.len() > 0 && !l.contains('{'),
                SegmentView::Tag(_) => true,
            } by {
                if i > 0 {
                    assert(segments[i] == rest[i - 1]);
                }
            }
            assert forall|i: int| 0 <= i < segments.len() - 1 implies !((
            #[trigger] segments[i]) is Literal && segments[i + 1] is Literal) by {
                assert(segments[i + 1] == rest[i]);
                if i > 0 {
                    assert(segments[i] == rest[i - 1]);
                }
            }
        }
    }

    /// Rendering is all or nothing: a template renders if and only if every
    /// tag that it refers to has a value.
    pub proof fn lemma_render_all_or_nothing(
        segments: Seq<SegmentView>,
        values: spec_fn(Tag) -> Option<Seq<char>>,
    )
        ensures
            render_spec(segments, values).is_some() <==> forall|tag: Tag|
                segments.contains(SegmentView::Tag(tag)) ==> values(tag).is_some(),
        decreases segments.len(),
    {
        if segments.len() > 0 {
            let front = segments.drop_last();
            let last = segments.last();
            Self::lemma_render_all_or_nothing(front, values);
            if render_spec(segments, values).is_some() {
                assert forall|tag: Tag| segments.contains(SegmentView::Tag(tag)) implies values(
                    tag,
                ).is_some() by {
                    let i = choose|i: int|
                        0 <= i < segments.len() && segments[i] == SegmentView::Tag(tag);
                    if i < segments.len() - 1 {
                        assert(front[i] == SegmentView::Tag(tag));
                        assert(front.contains(SegmentView::Tag(tag)));
                    }
                }
            }
            if forall|tag: Tag| segments.contains(SegmentView::Tag(tag)) ==> values(tag).is_some() {
                assert forall|tag: Tag| front.contains(SegmentView::Tag(tag)) implies values(
                    tag,
                ).is_some() by {
                    let i = choose|i: int| 0 <= i < front.len() && front[i] == SegmentView::Tag(tag);
                    assert(segments[i] == SegmentView::Tag(tag));
                    assert(segments.contains(SegmentView::Tag(tag)));
                }
                if let SegmentView::Tag(tag) = last {
                    assert(segments[segments.len() - 1] == SegmentView::Tag(tag));
                    assert(segments.contains(SegmentView::Tag(tag)));
                }
            }
        }
    }

    /// What a template renders to is the values of its segments, one after
    /// the other.
    pub proof fn lemma_render_joins(
        segments: Seq<SegmentView>,
        values: spec_fn(Tag) -> Option<Seq<char>>,
    )
        requires
            render_spec(segments, values).is_some(),
        ensures
            forall|i: int|
                0 <= i < segments.len() ==> (#[trigger] segment_value(segments[i], values)).is_some(),
            render_spec(segments, values) == Some(
                segments.map_values(|s: SegmentView| segment_value(s, values).unwrap()).flatten(),
            ),
        decreases segments.len(),
    {
        let pieces = segments.map_values(|s: SegmentView| segment_value(s, values).unwrap());
        pieces.lemma_flatten_and_flatten_alt_are_equivalent();
        if segments.len() == 0 {
            assert(pieces =~= Seq::<Seq<char>>::empty());
        } else {
            let front = segments.drop_last();
            Self::lemma_render_joins(front, values);
            let front_pieces = front.map_values(|s: SegmentView| segment_value(s, values).unwrap());
            let piece = segment_value(segments.last(), values).unwrap();
            front_pieces.lemma_flatten_and_flatten_alt_are_equivalent();
            assert(pieces.drop_last() =~= front_pieces);
            assert(pieces.last() == piece);
            assert forall|i: int| 0 <= i < segments.len() implies (#[trigger] segment_value(
                segments[i],
                values,
            )).is_some() by {
                if i < segments.len() - 1 {
                    assert(segments[i] == front[i]);
                }
            }
        }
    }

    /// Once a front part of a template fails to render, the whole fails.
    pub proof fn lemma_render_fails_on(
        segments: Seq<SegmentView>,
        k: int,
        values: spec_fn(Tag) -> Option<Seq<char>>,
    )
        requires
            0 <= k <= segments.len(),
            render_spec(segments.take(k), values).is_none(),
        ensures
            render_spec(segments, values).is_none(),
        decreases segments.len() - k,
    {
        if k < segments.len() {
            assert(segments.take(k + 1).drop_last() =~= segments.take(k));
            Self::lemma_render_fails_on(segments, k + 1, values);
        } else {
            assert(segments.take(k) =~= segments);
        }
    }
}

} // verus!
