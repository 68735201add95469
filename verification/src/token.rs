//! HTML tokenizer: a lazy producer that walks an input character sequence
//! with a WHATWG-derived state machine and emits one token per `next` call.
//!
//! The whole machine is mirrored by a mathematical transition function
//! [`spec_step`]; `next` is proved to return exactly the token that iterating
//! the transition function from the current configuration emits.

use vstd::prelude::*;
use crate::attribute::{attr_added, AttrModel, Attribute};
use crate::strutil::{is_alpha, is_ascii_alpha, is_ascii_upper, is_upper_alpha, lower_char, no_upper, push_char, to_lower};

verus! {

/// One unit of HTML syntax produced by the tokenizer.
#[derive(Debug, Clone, PartialEq, Eq)]
pub enum HtmlToken {
    /// An opening tag, e.g. `<p class="a">`.
    StartTag { tag: String, self_closing: bool, attributes: Vec<Attribute> },
    /// A closing tag, e.g. `</p>`.
    EndTag { tag: String },
    /// One character of ordinary text.
    Char(char),
    /// The end of the input stream.
    Eof,
}

/// Mathematical image of an [`HtmlToken`].
#[verifier::ext_equal]
pub ghost enum TokenModel {
    StartTag { tag: Seq<char>, self_closing: bool, attributes: Seq<AttrModel> },
    EndTag { tag: Seq<char> },
    Char { ch: char },
    Eof,
}

impl View for HtmlToken {
    type V = TokenModel;

    open spec fn view(&self) -> TokenModel {
        match self {
            HtmlToken::StartTag { tag, self_closing, attributes } => TokenModel::StartTag {
                tag: tag@,
                self_closing: *self_closing,
                attributes: attributes@.map_values(|a: Attribute| a@),
            },
            HtmlToken::EndTag { tag } => TokenModel::EndTag { tag: tag@ },
            HtmlToken::Char(c) => TokenModel::Char { ch: *c },
            HtmlToken::Eof => TokenModel::Eof,
        }
    }
}

/// The model of an optional token.
pub open spec fn token_model_opt(t: Option<HtmlToken>) -> Option<TokenModel> {
    match t {
        Some(tok) => Some(tok@),
        None => None,
    }
}

/// The states of the tokenizer, named after the WHATWG labels.
#[derive(Debug, Clone, Copy, PartialEq, Eq)]
pub enum State {
    Data,
    TagOpen,
    EndTagOpen,
    TagName,
    BeforeAttributeName,
    AttributeName,
    AfterAttributeName,
    BeforeAttributeValue,
    AttributeValueDoubleQuoted,
    AttributeValueSingleQuoted,
    AttributeValueUnquoted,
    AfterAttributeValueQuoted,
    SelfClosingStartTag,
    ScriptData,
    ScriptDataLessThanSign,
    ScriptDataEndTagOpen,
    ScriptDataEndTagName,
    TemporaryBuffer,
}

/// A configuration of the tokenizer: the mathematical image of an
/// [`HtmlTokenizer`].
#[verifier::ext_equal]
pub ghost struct TokModel {
    pub state: State,
    pub pos: int,
    pub reconsume: bool,
    pub latest: Option<TokenModel>,
    pub input: Seq<char>,
    pub buf: Seq<char>,
}

/// The synthetic character handed to a state once the scanner has moved past
/// the end of the input; every state tests for end of input before it could
/// act on this character.
pub open spec fn eof_char() -> char {
    '\0'
}

/// The character the next machine step acts on: the one at `pos` (or at
/// `pos - 1` under reconsumption), or the synthetic end marker past the end.
pub open spec fn cur_char(m: TokModel) -> char {
    if m.reconsume {
        if 1 <= m.pos && m.pos - 1 < m.input.len() {
            m.input[m.pos - 1]
        } else {
            eof_char()
        }
    } else {
        if 0 <= m.pos && m.pos < m.input.len() {
            m.input[m.pos]
        } else {
            eof_char()
        }
    }
}

/// The configuration after the scanner has read its character: either the
/// reconsume flag is spent or the position advances.
pub open spec fn after_read(m: TokModel) -> TokModel {
    if m.reconsume {
        TokModel { reconsume: false, ..m }
    } else {
        TokModel { pos: m.pos + 1, ..m }
    }
}

/// End of input, as the states observe it after a read.
pub open spec fn at_eof(m: TokModel) -> bool {
    m.pos > m.input.len()
}

/// The model after a fresh tag token is made pending.
pub open spec fn created_tag(m: TokModel, start_tag_token: bool) -> TokModel {
    if start_tag_token {
        TokModel {
            latest: Some(
                TokenModel::StartTag {
                    tag: Seq::empty(),
                    self_closing: false,
                    attributes: Seq::empty(),
                },
            ),
            ..m
        }
    } else {
        TokModel { latest: Some(TokenModel::EndTag { tag: Seq::empty() }), ..m }
    }
}

/// The model after `c` is appended to the pending tag's name. A pending
/// token that is not a tag is left unchanged.
pub open spec fn appended_tag_name(m: TokModel, c: char) -> TokModel {
    match m.latest {
        Some(TokenModel::StartTag { tag, self_closing, attributes }) => TokModel {
            latest: Some(
                TokenModel::StartTag { tag: tag.push(c), self_closing, attributes },
            ),
            ..m
        },
        Some(TokenModel::EndTag { tag }) => TokModel {
            latest: Some(TokenModel::EndTag { tag: tag.push(c) }),
            ..m
        },
        _ => m,
    }
}

/// The model after an empty attribute is appended to the pending start tag.
/// Anything else pending is left unchanged: attributes met inside an end tag
/// are ignored rather than treated as a fatal error.
pub open spec fn started_attribute(m: TokModel) -> TokModel {
    match m.latest {
        Some(TokenModel::StartTag { tag, self_closing, attributes }) => TokModel {
            latest: Some(
                TokenModel::StartTag {
                    tag,
                    self_closing,
                    attributes: attributes.push(AttrModel { name: Seq::empty(), value: Seq::empty() }),
                },
            ),
            ..m
        },
        _ => m,
    }
}

/// The model after `c` is appended to the name or value of the last
/// attribute of the pending start tag; a no-op when nothing fitting pends.
pub open spec fn appended_attribute(m: TokModel, c: char, is_name: bool) -> TokModel {
    match m.latest {
        Some(TokenModel::StartTag { tag, self_closing, attributes }) => {
            if attributes.len() > 0 {
                let j = attributes.len() - 1;
                TokModel {
                    latest: Some(
                        TokenModel::StartTag {
                            tag,
                            self_closing,
                            attributes: attributes.update(j as int, attr_added(attributes[j as int], c, is_name)),
                        },
                    ),
                    ..m
                }
            } else {
                m
            }
        },
        _ => m,
    }
}

/// The model after the pending start tag is marked self-closing; a no-op
/// when no start tag pends.
pub open spec fn with_self_closing(m: TokModel) -> TokModel {
    match m.latest {
        Some(TokenModel::StartTag { tag, self_closing, attributes }) => TokModel {
            latest: Some(TokenModel::StartTag { tag, self_closing: true, attributes }),
            ..m
        },
        _ => m,
    }
}

/// States whose actions read or emit the pending token; in these states a
/// pending token is always present.
pub open spec fn needs_latest(s: State) -> bool {
    ||| s == State::TagName
    ||| s == State::BeforeAttributeName
    ||| s == State::AttributeName
    ||| s == State::AfterAttributeName
    ||| s == State::BeforeAttributeValue
    ||| s == State::AttributeValueDoubleQuoted
    ||| s == State::AttributeValueSingleQuoted
    ||| s == State::AttributeValueUnquoted
    ||| s == State::AfterAttributeValueQuoted
    ||| s == State::SelfClosingStartTag
    ||| s == State::ScriptDataEndTagName
}

/// A tag name or attribute list as the machine keeps it pending: the name is
/// already lowercased, attribute names too, and the self-closing flag is
/// still clear (it is set only in the instant the tag is emitted).
pub open spec fn latest_ok(t: Option<TokenModel>) -> bool {
    match t {
        None => true,
        Some(TokenModel::StartTag { tag, self_closing, attributes }) => {
            &&& no_upper(tag)
            &&& !self_closing
            &&& forall|i: int| 0 <= i < attributes.len() ==> no_upper(#[trigger] attributes[i].name)
        },
        Some(TokenModel::EndTag { tag }) => no_upper(tag),
        Some(_) => false,
    }
}

/// Well-formedness of a tokenizer configuration.
pub open spec fn wf(m: TokModel) -> bool {
    &&& m.input.len() + 2 <= usize::MAX
    &&& 0 <= m.pos
    &&& (m.reconsume ==> m.pos >= 1)
    &&& latest_ok(m.latest)
    &&& (needs_latest(m.state) ==> m.latest is Some)
}

/// Bounds that hold of every configuration from which the machine still
/// runs: the scanner is at most two synthetic reads past the end, and at the
/// very last one it is reconsuming in the script-data tail.
pub open spec fn running(m: TokModel) -> bool {
    &&& m.pos <= m.input.len() + 2
    &&& (m.pos == m.input.len() + 1 && !m.reconsume ==> m.state == State::TemporaryBuffer)
    &&& (m.pos == m.input.len() + 2 ==> m.reconsume && (m.state == State::TemporaryBuffer
        || m.state == State::ScriptData))
}

/// An emitted token is fully lowercased: no ASCII uppercase letter occurs in
/// a tag name or an attribute name.
pub open spec fn token_lowercase(t: TokenModel) -> bool {
    match t {
        TokenModel::StartTag { tag, self_closing, attributes } => {
            &&& no_upper(tag)
            &&& forall|i: int| 0 <= i < attributes.len() ==> no_upper(#[trigger] attributes[i].name)
        },
        TokenModel::EndTag { tag } => no_upper(tag),
        _ => true,
    }
}

/// One iteration of the tokenizer loop: read a character, act on it in the
/// current state. Returns the new configuration, paired with the emitted
/// token when the iteration ends a `next` call and `None` when the machine
/// keeps looping.
pub open spec fn spec_step(m: TokModel) -> (TokModel, Option<TokenModel>) {
    let c = cur_char(m);
    let m1 = after_read(m);
    match m1.state {
        State::Data => {
            if c == '<' {
                (TokModel { state: State::TagOpen, ..m1 }, None)
            } else if at_eof(m1) {
                (m1, Some(TokenModel::Eof))
            } else {
                (m1, Some(TokenModel::Char { ch: c }))
            }
        },
        State::TagOpen => {
            if c == '/' {
                (TokModel { state: State::EndTagOpen, ..m1 }, None)
            } else if is_alpha(c) {
                (created_tag(TokModel { reconsume: true, state: State::TagName, ..m1 }, true), None)
            } else if at_eof(m1) {
                (m1, Some(TokenModel::Eof))
            } else {
                (TokModel { reconsume: true, state: State::Data, ..m1 }, None)
            }
        },
        State::EndTagOpen => {
            if at_eof(m1) {
                (m1, Some(TokenModel::Eof))
            } else if is_alpha(c) {
                (created_tag(TokModel { reconsume: true, state: State::TagName, ..m1 }, false), None)
            } else {
                (m1, None)
            }
        },
        State::TagName => {
            if c == ' ' {
                (TokModel { state: State::BeforeAttributeName, ..m1 }, None)
            } else if c == '/' {
                (TokModel { state: State::SelfClosingStartTag, ..m1 }, None)
            } else if c == '>' {
                (TokModel { state: State::Data, latest: None, ..m1 }, m1.latest)
            } else if is_upper_alpha(c) {
                (appended_tag_name(m1, lower_char(c)), None)
            } else if at_eof(m1) {
                (m1, Some(TokenModel::Eof))
            } else {
                (appended_tag_name(m1, c), None)
            }
        },
        State::BeforeAttributeName => {
            if c == '/' || c == '>' || at_eof(m1) {
                (TokModel { reconsume: true, state: State::AfterAttributeName, ..m1 }, None)
            } else {
                (started_attribute(TokModel { reconsume: true, state: State::AttributeName, ..m1 }), None)
            }
        },
        State::AttributeName => {
            if c == ' ' || c == '/' || c == '>' || at_eof(m1) {
                (TokModel { reconsume: true, state: State::AfterAttributeName, ..m1 }, None)
            } else if c == '=' {
                (TokModel { state: State::BeforeAttributeValue, ..m1 }, None)
            } else if is_upper_alpha(c) {
                (appended_attribute(m1, lower_char(c), true), None)
            } else {
                (appended_attribute(m1, c, true), None)
            }
        },
        State::AfterAttributeName => {
            if c == ' ' {
                (m1, None)
            } else if c == '/' {
                (TokModel { state: State::SelfClosingStartTag, ..m1 }, None)
            } else if c == '=' {
                (TokModel { state: State::BeforeAttributeValue, ..m1 }, None)
            } else if c == '>' {
                (TokModel { state: State::Data, latest: None, ..m1 }, m1.latest)
            } else if at_eof(m1) {
                (m1, Some(TokenModel::Eof))
            } else {
                (started_attribute(TokModel { reconsume: true, state: State::AttributeName, ..m1 }), None)
            }
        },
        State::BeforeAttributeValue => {
            if c == ' ' {
                (m1, None)
            } else if c == '"' {
                (TokModel { state: State::AttributeValueDoubleQuoted, ..m1 }, None)
            } else if c == '\'' {
                (TokModel { state: State::AttributeValueSingleQuoted, ..m1 }, None)
            } else {
                (TokModel { reconsume: true, state: State::AttributeValueUnquoted, ..m1 }, None)
            }
        },
        State::AttributeValueDoubleQuoted => {
            if c == '"' {
                (TokModel { state: State::AfterAttributeValueQuoted, ..m1 }, None)
            } else if at_eof(m1) {
                (m1, Some(TokenModel::Eof))
            } else {
                (appended_attribute(m1, c, false), None)
            }
        },
        State::AttributeValueSingleQuoted => {
            if c == '\'' {
                (TokModel { state: State::AfterAttributeValueQuoted, ..m1 }, None)
            } else if at_eof(m1) {
                (m1, Some(TokenModel::Eof))
            } else {
                (appended_attribute(m1, c, false), None)
            }
        },
        State::AttributeValueUnquoted => {
            if c == ' ' {
                (TokModel { state: State::BeforeAttributeName, ..m1 }, None)
            } else if c == '>' {
                (TokModel { state: State::Data, latest: None, ..m1 }, m1.latest)
            } else if at_eof(m1) {
                (m1, Some(TokenModel::Eof))
            } else {
                (appended_attribute(m1, c, false), None)
            }
        },
        State::AfterAttributeValueQuoted => {
            if c == ' ' {
                (TokModel { state: State::BeforeAttributeName, ..m1 }, None)
            } else if c == '/' {
                (TokModel { state: State::SelfClosingStartTag, ..m1 }, None)
            } else if c == '>' {
                (TokModel { state: State::Data, latest: None, ..m1 }, m1.latest)
            } else if at_eof(m1) {
                (m1, Some(TokenModel::Eof))
            } else {
                (TokModel { reconsume: true, state: State::BeforeAttributeName, ..m1 }, None)
            }
        },
        State::SelfClosingStartTag => {
            if c == '>' {
                (
                    TokModel { state: State::Data, latest: None, ..m1 },
                    with_self_closing(m1).latest,
                )
            } else if at_eof(m1) {
                (m1, Some(TokenModel::Eof))
            } else {
                (m1, None)
            }
        },
        State::ScriptData => {
            if c == '<' {
                (TokModel { state: State::ScriptDataLessThanSign, ..m1 }, None)
            } else if at_eof(m1) {
                (m1, Some(TokenModel::Eof))
            } else {
                (m1, Some(TokenModel::Char { ch: c }))
            }
        },
        State::ScriptDataLessThanSign => {
            if c == '/' {
                (TokModel { buf: Seq::empty(), state: State::ScriptDataEndTagOpen, ..m1 }, None)
            } else {
                (
                    TokModel { reconsume: true, state: State::ScriptData, ..m1 },
                    Some(TokenModel::Char { ch: '<' }),
                )
            }
        },
        State::ScriptDataEndTagOpen => {
            if is_alpha(c) {
                (created_tag(TokModel { reconsume: true, state: State::ScriptDataEndTagName, ..m1 }, false), None)
            } else {
                (
                    TokModel { reconsume: true, state: State::ScriptData, ..m1 },
                    Some(TokenModel::Char { ch: '<' }),
                )
            }
        },
        State::ScriptDataEndTagName => {
            if c == '>' {
                (TokModel { state: State::Data, latest: None, ..m1 }, m1.latest)
            } else if is_alpha(c) {
                (appended_tag_name(TokModel { buf: m1.buf.push(c), ..m1 }, lower_char(c)), None)
            } else {
                (
                    TokModel {
                        state: State::TemporaryBuffer,
                        buf: seq!['<', '/'] + m1.buf + seq![c],
                        ..m1
                    },
                    None,
                )
            }
        },
        State::TemporaryBuffer => {
            let m2 = TokModel { reconsume: true, ..m1 };
            if m2.buf.len() == 0 {
                (TokModel { state: State::ScriptData, ..m2 }, None)
            } else {
                (
                    TokModel { buf: m2.buf.drop_first(), ..m2 },
                    Some(TokenModel::Char { ch: m2.buf[0] }),
                )
            }
        },
    }
}

/// Secondary termination measure: ranks the configurations that re-examine
/// the current character without advancing, so that every chain of
/// reconsuming transitions strictly descends.
pub open spec fn rank(m: TokModel) -> int {
    if !m.reconsume {
        0
    } else {
        match m.state {
            State::AfterAttributeValueQuoted => 5,
            State::BeforeAttributeName => 4,
            State::AttributeName => {
                if cur_char(m) == ' ' || cur_char(m) == '/' || cur_char(m) == '>' || m.pos
                    > m.input.len() {
                    3
                } else {
                    1
                }
            },
            State::AfterAttributeName => 2,
            State::TemporaryBuffer => 2,
            State::TagOpen => 2,
            State::EndTagOpen => 2,
            State::BeforeAttributeValue => 2,
            State::ScriptDataEndTagOpen => 2,
            _ => 1,
        }
    }
}

/// Iterates [`spec_step`] until a token is emitted: the configuration after
/// a `next` call and the token that call returns.
pub open spec fn spec_run(m: TokModel) -> (TokModel, TokenModel)
    decreases m.input.len() + 2 - m.pos, rank(m),
        when wf(m) && running(m)
        via spec_run_decreases
{
    let s = spec_step(m);
    match s.1 {
        Some(t) => (s.0, t),
        None => spec_run(s.0),
    }
}

/// Every non-emitting machine step preserves well-formedness and the
/// running bounds, and strictly descends the termination measure.
pub proof fn lemma_step_invariants(m: TokModel)
    requires
        wf(m),
        running(m),
    ensures
        wf(spec_step(m).0),
        spec_step(m).1 is None ==> running(spec_step(m).0),
        spec_step(m).1 is None ==> {
            let m2 = spec_step(m).0;
            ||| m.input.len() + 2 - m2.pos < m.input.len() + 2 - m.pos
            ||| (m2.pos == m.pos && rank(m2) < rank(m))
        },
        spec_step(m).0.input == m.input,
        spec_step(m).1 matches Some(t) ==> token_lowercase(t),
{
    let c = cur_char(m);
    let m1 = after_read(m);
    let s = spec_step(m);
    crate::strutil::lemma_lower_char(c);
    match m1.state {
        State::TagName => {
            assert(latest_ok(s.0.latest));
        },
        State::AttributeName => {
            if !(c == ' ' || c == '/' || c == '>' || at_eof(m1)) && c != '=' {
                let cl = if is_upper_alpha(c) { lower_char(c) } else { c };
                assert(!is_upper_alpha(cl));
                match m1.latest {
                    Some(TokenModel::StartTag { tag, self_closing, attributes }) => {
                        if attributes.len() > 0 {
                            let j = attributes.len() - 1;
                            let att2 = attributes.update(
                                j as int,
                                attr_added(attributes[j as int], cl, true),
                            );
                            assert forall|i: int| 0 <= i < att2.len() implies no_upper(
                                #[trigger] att2[i].name,
                            ) by {
                                if i != j {
                                    assert(att2[i] == attributes[i]);
                                }
                            }
                        }
                    },
                    _ => {},
                }
            }
        },
        State::BeforeAttributeName | State::AfterAttributeName => {
            match m1.latest {
                Some(TokenModel::StartTag { tag, self_closing, attributes }) => {
                    let att2 = attributes.push(AttrModel { name: Seq::empty(), value: Seq::empty() });
                    assert forall|i: int| 0 <= i < att2.len() implies no_upper(
                        #[trigger] att2[i].name,
                    ) by {
                        if i < attributes.len() {
                            assert(att2[i] == attributes[i]);
                        } else {
                            assert(att2[i].name == Seq::<char>::empty());
                        }
                    }
                },
                _ => {},
            }
        },
        State::AttributeValueDoubleQuoted | State::AttributeValueSingleQuoted
        | State::AttributeValueUnquoted => {
            match m1.latest {
                Some(TokenModel::StartTag { tag, self_closing, attributes }) => {
                    if attributes.len() > 0 {
                        let j = attributes.len() - 1;
                        let att2 = attributes.update(
                            j as int,
                            attr_added(attributes[j as int], c, false),
                        );
                        assert forall|i: int| 0 <= i < att2.len() implies no_upper(
                            #[trigger] att2[i].name,
                        ) by {
                            if i != j {
                                assert(att2[i] == attributes[i]);
                            } else {
                                assert(att2[i].name == attributes[j as int].name);
                            }
                        }
                    }
                },
                _ => {},
            }
        },
        State::ScriptDataEndTagName => {
            if c != '>' && is_alpha(c) {
                assert(latest_ok(s.0.latest));
            }
        },
        _ => {},
    }
}

#[via_fn]
proof fn spec_run_decreases(m: TokModel) {
    lemma_step_invariants(m);
}

/// The lazy tokenizer: an input character sequence plus the machine's
/// current configuration.
#[derive(Debug, Clone, PartialEq, Eq)]
pub struct HtmlTokenizer {
    state: State,
    pos: usize,
    reconsume: bool,
    latest_token: Option<HtmlToken>,
    input: Vec<char>,
    buf: Vec<char>,
}

impl View for HtmlTokenizer {
    type V = TokModel;

    closed spec fn view(&self) -> TokModel {
        TokModel {
            state: self.state,
            pos: self.pos as int,
            reconsume: self.reconsume,
            latest: token_model_opt(self.latest_token),
            input: self.input@,
            buf: self.buf@,
        }
    }
}

impl HtmlTokenizer {
    /// Creates a tokenizer over the characters of `html`, in the data state
    /// at the start of the input.
    pub fn new(html: String) -> (t: Self)
        requires
            html@.len() + 2 <= usize::MAX,
        ensures
            t@ == (TokModel {
                state: State::Data,
                pos: 0,
                reconsume: false,
                latest: None::<TokenModel>,
                input: html@,
                buf: Seq::<char>::empty(),
            }),
            wf(t@),
    {
        let t = Self {
            state: State::Data,
            pos: 0,
            reconsume: false,
            latest_token: None,
            input: crate::strutil::chars_of(html.as_str()),
            buf: Vec::new(),
        };
        proof {
            assert(t@ =~= (TokModel {
                state: State::Data,
                pos: 0,
                reconsume: false,
                latest: None::<TokenModel>,
                input: html@,
                buf: Seq::<char>::empty(),
            }));
        }
        t
    }

    /// Moves the machine into `s`. The tree builder uses this to enter the
    /// script-data sub-machine after it sees a `script` start tag, and to
    /// leave it again.
    pub fn set_state(&mut self, s: State)
        requires
            wf(old(self)@),
            s == State::Data || s == State::ScriptData,
        ensures
            final(self)@ == (TokModel { state: s, ..old(self)@ }),
            wf(final(self)@),
    {
        self.state = s;
    }

    /// True once the scanner has moved past the end of the input.
    fn is_eof(&self) -> (r: bool)
        ensures
            r == at_eof(self@),
    {
        self.pos > self.input.len()
    }

    /// Hands out the character at the scan position and advances. Past the
    /// end of the input it hands out the synthetic end marker, giving each
    /// state one final pass in which to emit `Eof`.
    fn consume_next_input(&mut self) -> (c: char)
        requires
            old(self)@.pos + 1 <= usize::MAX,
        ensures
            final(self)@ == (TokModel { pos: old(self)@.pos + 1, ..old(self)@ }),
            c == (if old(self)@.pos < old(self)@.input.len() {
                old(self)@.input[old(self)@.pos]
            } else {
                eof_char()
            }),
    {
        let c = if self.pos < self.input.len() {
            self.input[self.pos]
        } else {
            '\0'
        };
        self.pos = self.pos + 1;
        c
    }

    /// Clears the reconsume flag and hands the previous character out again,
    /// without advancing. Past the end of the input it hands out the
    /// synthetic end marker.
    fn reconsume_input(&mut self) -> (c: char)
        requires
            old(self)@.pos >= 1,
        ensures
            final(self)@ == (TokModel { reconsume: false, ..old(self)@ }),
            c == (if old(self)@.pos - 1 < old(self)@.input.len() {
                old(self)@.input[old(self)@.pos - 1]
            } else {
                eof_char()
            }),
    {
        self.reconsume = false;
        let c = if self.pos - 1 < self.input.len() {
            self.input[self.pos - 1]
        } else {
            '\0'
        };
        c
    }

    /// Makes a fresh start tag (or end tag) pending.
    fn create_tag(&mut self, start_tag_token: bool)
        ensures
            final(self)@ == created_tag(old(self)@, start_tag_token),
    {
        if start_tag_token {
            self.latest_token = Some(
                HtmlToken::StartTag {
                    tag: String::new(),
                    self_closing: false,
                    attributes: Vec::new(),
                },
            );
        } else {
            self.latest_token = Some(HtmlToken::EndTag { tag: String::new() });
        }
        proof {
            assert(self@ =~= created_tag(old(self)@, start_tag_token));
        }
    }

    /// Appends `c` to the pending tag's name; a no-op when no tag pends.
    fn append_tag_name(&mut self, c: char)
        ensures
            final(self)@ == appended_tag_name(old(self)@, c),
    {
        let lt = self.latest_token.take();
        match lt {
            Some(HtmlToken::StartTag { mut tag, self_closing, attributes }) => {
                push_char(&mut tag, c);
                self.latest_token = Some(HtmlToken::StartTag { tag, self_closing, attributes });
            },
            Some(HtmlToken::EndTag { mut tag }) => {
                push_char(&mut tag, c);
                self.latest_token = Some(HtmlToken::EndTag { tag });
            },
            other => {
                self.latest_token = other;
            },
        }
        proof {
            assert(self@ =~= appended_tag_name(old(self)@, c));
        }
    }

    /// Hands the pending token out and clears it.
    fn take_latest_token(&mut self) -> (t: Option<HtmlToken>)
        ensures
            final(self)@ == (TokModel { latest: None::<TokenModel>, ..old(self)@ }),
            token_model_opt(t) == old(self)@.latest,
    {
        let t = self.latest_token.take();
        proof {
            assert(self@ =~= (TokModel { latest: None::<TokenModel>, ..old(self)@ }));
        }
        t
    }

    /// Opens a fresh, empty attribute on the pending start tag; attributes
    /// met anywhere else are ignored.
    fn start_new_attribute(&mut self)
        ensures
            final(self)@ == started_attribute(old(self)@),
    {
        let lt = self.latest_token.take();
        match lt {
            Some(HtmlToken::StartTag { tag, self_closing, mut attributes }) => {
                attributes.push(Attribute::new());
                self.latest_token = Some(HtmlToken::StartTag { tag, self_closing, attributes });
                proof {
                    assert(self@.latest matches Some(TokenModel::StartTag { attributes: a2, .. })
                        && started_attribute(old(self)@).latest matches Some(
                        TokenModel::StartTag { attributes: a3, .. },
                    ) && a2 =~= a3);
                }
            },
            other => {
                self.latest_token = other;
            },
        }
        proof {
            assert(self@ =~= started_attribute(old(self)@));
        }
    }

    /// Appends `c` to the name (when `is_name`) or the value of the last
    /// attribute of the pending start tag; a no-op when nothing fitting
    /// pends.
    fn append_attribute(&mut self, c: char, is_name: bool)
        ensures
            final(self)@ == appended_attribute(old(self)@, c, is_name),
    {
        let lt = self.latest_token.take();
        match lt {
            Some(HtmlToken::StartTag { tag, self_closing, mut attributes }) => {
                let n = attributes.len();
                if n > 0 {
                    let ghost before = attributes@;
                    let mut a = attributes.pop().unwrap();
                    a.add_char(c, is_name);
                    attributes.push(a);
                    proof {
                        let m0 = before.map_values(|x: Attribute| x@);
                        let m1 = attributes@.map_values(|x: Attribute| x@);
                        let m2 = m0.update(n - 1, attr_added(m0[n - 1], c, is_name));
                        assert forall|i: int| 0 <= i < m1.len() implies m1[i] == m2[i] by {
                            if i < n - 1 {
                                assert(attributes@[i] == before[i]);
                            }
                        }
                        assert(m1 =~= m2);
                    }
                }
                self.latest_token = Some(HtmlToken::StartTag { tag, self_closing, attributes });
                proof {
                    assert(self@.latest matches Some(TokenModel::StartTag { attributes: a2, .. })
                        && appended_attribute(old(self)@, c, is_name).latest matches Some(
                        TokenModel::StartTag { attributes: a3, .. },
                    ) && a2 =~= a3);
                }
            },
            other => {
                self.latest_token = other;
            },
        }
        proof {
            assert(self@ =~= appended_attribute(old(self)@, c, is_name));
        }
    }

    /// Runs the machine until it emits a token and returns that token.
    /// Returns `None`, and changes nothing, exactly when the scanner already
    /// stands at or past the end of the input; otherwise the result and the
    /// new configuration are the ones [`spec_run`] gives.
    #[verifier::rlimit(100)]
    pub fn next(&mut self) -> (r: Option<HtmlToken>)
        requires
            wf(old(self)@),
        ensures
            wf(final(self)@),
            final(self)@.input == old(self)@.input,
            (r is None) <==> old(self)@.pos >= old(self)@.input.len(),
            old(self)@.pos >= old(self)@.input.len() ==> *final(self) == *old(self),
            old(self)@.pos < old(self)@.input.len() ==> final(self)@ == spec_run(old(self)@).0,
            old(self)@.pos < old(self)@.input.len() ==> (r matches Some(t) && t@ == spec_run(
                old(self)@,
            ).1),
            r matches Some(t) ==> token_lowercase(t@),
    {
        if self.pos >= self.input.len() {
            return None;
        }
        loop
            invariant
                wf(self@),
                running(self@),
                self@.input == old(self)@.input,
                old(self)@.pos < old(self)@.input.len(),
                wf(old(self)@),
                running(old(self)@),
                spec_run(self@) == spec_run(old(self)@),
            decreases self@.input.len() + 2 - self@.pos, rank(self@),
        {
            let ghost top = self@;
            let c: char = if self.reconsume {
                self.reconsume_input()
            } else {
                self.consume_next_input()
            };
            proof {
                lemma_step_invariants(top);
                assert(self@ == after_read(top));
                assert(c == cur_char(top));
            }
            match self.state {
                State::Data => {
                    if c == '<' {
                        self.state = State::TagOpen;
                        proof {
                            assert(spec_step(top).0 =~= self@);
                            assert(spec_run(top) == spec_run(self@));
                        }
                        continue;
                    }
                    if self.is_eof() {
                        proof {
                            assert(spec_step(top) == (self@, Some(TokenModel::Eof)));
                            assert(spec_run(top) == (self@, TokenModel::Eof));
                        }
                        return Some(HtmlToken::Eof);
                    }
                    proof {
                        assert(spec_step(top) == (self@, Some(TokenModel::Char { ch: c })));
                        assert(spec_run(top) == (self@, TokenModel::Char { ch: c }));
                    }
                    return Some(HtmlToken::Char(c));
                },
                State::TagOpen => {
                    if c == '/' {
                        self.state = State::EndTagOpen;
                        proof {
                            assert(spec_step(top).0 =~= self@);
                            assert(spec_run(top) == spec_run(self@));
                        }
                        continue;
                    }
                    if is_ascii_alpha(c) {
                        self.reconsume = true;
                        self.state = State::TagName;
                        self.create_tag(true);
                        proof {
                            assert(spec_step(top).0 =~= self@);
                            assert(spec_run(top) == spec_run(self@));
                        }
                        continue;
                    }
                    if self.is_eof() {
                        proof {
                            assert(spec_step(top) == (self@, Some(TokenModel::Eof)));
                            assert(spec_run(top) == (self@, TokenModel::Eof));
                        }
                        return Some(HtmlToken::Eof);
                    }
                    self.reconsume = true;
                    self.state = State::Data;
                    proof {
                        assert(spec_step(top).0 =~= self@);
                        assert(spec_run(top) == spec_run(self@));
                    }
                    continue;
                },
                State::EndTagOpen => {
                    if self.is_eof() {
                        proof {
                            assert(spec_step(top) == (self@, Some(TokenModel::Eof)));
                            assert(spec_run(top) == (self@, TokenModel::Eof));
                        }
                        return Some(HtmlToken::Eof);
                    }
                    if is_ascii_alpha(c) {
                        self.reconsume = true;
                        self.state = State::TagName;
                        self.create_tag(false);
                        proof {
                            assert(spec_step(top).0 =~= self@);
                            assert(spec_run(top) == spec_run(self@));
                        }
                        continue;
                    }
                    proof {
                        assert(spec_step(top).0 =~= self@);
                        assert(spec_run(top) == spec_run(self@));
                    }
                    continue;
                },
                State::TagName => {
                    if c == ' ' {
                        self.state = State::BeforeAttributeName;
                        proof {
                            assert(spec_step(top).0 =~= self@);
                            assert(spec_run(top) == spec_run(self@));
                        }
                        continue;
                    }
                    if c == '/' {
                        self.state = State::SelfClosingStartTag;
                        proof {
                            assert(spec_step(top).0 =~= self@);
                            assert(spec_run(top) == spec_run(self@));
                        }
                        continue;
                    }
                    if c == '>' {
                        self.state = State::Data;
                        let t = self.take_latest_token();
                        proof {
                            assert(spec_step(top).0 =~= self@);
                            assert(spec_step(top).1 == top.latest);
                            assert(top.latest is Some);
                            assert(Some(spec_run(top).1) == top.latest);
                            assert(spec_run(top).0 == self@);
                        }
                        return t;
                    }
                    if is_ascii_upper(c) {
                        self.append_tag_name(to_lower(c));
                        proof {
                            assert(spec_step(top).0 =~= self@);
                            assert(spec_run(top) == spec_run(self@));
                        }
                        continue;
                    }
                    if self.is_eof() {
                        proof {
                            assert(spec_step(top) == (self@, Some(TokenModel::Eof)));
                            assert(spec_run(top) == (self@, TokenModel::Eof));
                        }
                        return Some(HtmlToken::Eof);
                    }
                    self.append_tag_name(c);
                    proof {
                        assert(spec_step(top).0 =~= self@);
                        assert(spec_run(top) == spec_run(self@));
                    }
                    continue;
                },
                State::BeforeAttributeName => {
                    if c == '/' || c == '>' || self.is_eof() {
                        self.reconsume = true;
                        self.state = State::AfterAttributeName;
                        proof {
                            assert(spec_step(top).0 =~= self@);
                            assert(spec_run(top) == spec_run(self@));
                        }
                        continue;
                    }
                    self.reconsume = true;
                    self.state = State::AttributeName;
                    self.start_new_attribute();
                    proof {
                        assert(spec_step(top).0 =~= self@);
                        assert(spec_run(top) == spec_run(self@));
                    }
                    continue;
                },
                State::AttributeName => {
                    if c == ' ' || c == '/' || c == '>' || self.is_eof() {
                        self.reconsume = true;
                        self.state = State::AfterAttributeName;
                        proof {
                            assert(spec_step(top).0 =~= self@);
                            assert(spec_run(top) == spec_run(self@));
                        }
                        continue;
                    }
                    if c == '=' {
                        self.state = State::BeforeAttributeValue;
                        proof {
                            assert(spec_step(top).0 =~= self@);
                            assert(spec_run(top) == spec_run(self@));
                        }
                        continue;
                    }
                    if is_ascii_upper(c) {
                        self.append_attribute(to_lower(c), true);
                        proof {
                            assert(spec_step(top).0 =~= self@);
                            assert(spec_run(top) == spec_run(self@));
                        }
                        continue;
                    }
                    self.append_attribute(c, true);
                    proof {
                        assert(spec_step(top).0 =~= self@);
                        assert(spec_run(top) == spec_run(self@));
                    }
                    continue;
                },
                State::AfterAttributeName => {
                    if c == ' ' {
                        proof {
                            assert(spec_step(top).0 =~= self@);
                            assert(spec_run(top) == spec_run(self@));
                        }
                        continue;
                    }
                    if c == '/' {
                        self.state = State::SelfClosingStartTag;
                        proof {
                            assert(spec_step(top).0 =~= self@);
                            assert(spec_run(top) == spec_run(self@));
                        }
                        continue;
                    }
                    if c == '=' {
                        self.state = State::BeforeAttributeValue;
                        proof {
                            assert(spec_step(top).0 =~= self@);
                            assert(spec_run(top) == spec_run(self@));
                        }
                        continue;
                    }
                    if c == '>' {
                        self.state = State::Data;
                        let t = self.take_latest_token();
                        proof {
                            assert(spec_step(top).0 =~= self@);
                            assert(spec_step(top).1 == top.latest);
                            assert(top.latest is Some);
                            assert(Some(spec_run(top).1) == top.latest);
                            assert(spec_run(top).0 == self@);
                        }
                        return t;
                    }
                    if self.is_eof() {
                        proof {
                            assert(spec_step(top) == (self@, Some(TokenModel::Eof)));
                            assert(spec_run(top) == (self@, TokenModel::Eof));
                        }
                        return Some(HtmlToken::Eof);
                    }
                    self.reconsume = true;
                    self.state = State::AttributeName;
                    self.start_new_attribute();
                    proof {
                        assert(spec_step(top).0 =~= self@);
                        assert(spec_run(top) == spec_run(self@));
                    }
                    continue;
                },
                State::BeforeAttributeValue => {
                    if c == ' ' {
                        proof {
                            assert(spec_step(top).0 =~= self@);
                            assert(spec_run(top) == spec_run(self@));
                        }
                        continue;
                    }
                    if c == '"' {
                        self.state = State::AttributeValueDoubleQuoted;
                        proof {
                            assert(spec_step(top).0 =~= self@);
                            assert(spec_run(top) == spec_run(self@));
                        }
                        continue;
                    }
                    if c == '\'' {
                        self.state = State::AttributeValueSingleQuoted;
                        proof {
                            assert(spec_step(top).0 =~= self@);
                            assert(spec_run(top) == spec_run(self@));
                        }
                        continue;
                    }
                    self.reconsume = true;
                    self.state = State::AttributeValueUnquoted;
                    proof {
                        assert(spec_step(top).0 =~= self@);
                        assert(spec_run(top) == spec_run(self@));
                    }
                    continue;
                },
                State::AttributeValueDoubleQuoted => {
                    if c == '"' {
                        self.state = State::AfterAttributeValueQuoted;
                        proof {
                            assert(spec_step(top).0 =~= self@);
                            assert(spec_run(top) == spec_run(self@));
                        }
                        continue;
                    }
                    if self.is_eof() {
                        proof {
                            assert(spec_step(top) == (self@, Some(TokenModel::Eof)));
                            assert(spec_run(top) == (self@, TokenModel::Eof));
                        }
                        return Some(HtmlToken::Eof);
                    }
                    self.append_attribute(c, false);
                    proof {
                        assert(spec_step(top).0 =~= self@);
                        assert(spec_run(top) == spec_run(self@));
                    }
                    continue;
                },
                State::AttributeValueSingleQuoted => {
                    if c == '\'' {
                        self.state = State::AfterAttributeValueQuoted;
                        proof {
                            assert(spec_step(top).0 =~= self@);
                            assert(spec_run(top) == spec_run(self@));
                        }
                        continue;
                    }
                    if self.is_eof() {
                        proof {
                            assert(spec_step(top) == (self@, Some(TokenModel::Eof)));
                            assert(spec_run(top) == (self@, TokenModel::Eof));
                        }
                        return Some(HtmlToken::Eof);
                    }
                    self.append_attribute(c, false);
                    proof {
                        assert(spec_step(top).0 =~= self@);
                        assert(spec_run(top) == spec_run(self@));
                    }
                    continue;
                },
                State::AttributeValueUnquoted => {
                    if c == ' ' {
                        self.state = State::BeforeAttributeName;
                        proof {
                            assert(spec_step(top).0 =~= self@);
                            assert(spec_run(top) == spec_run(self@));
                        }
                        continue;
                    }
                    if c == '>' {
                        self.state = State::Data;
                        let t = self.take_latest_token();
                        proof {
                            assert(spec_step(top).0 =~= self@);
                            assert(spec_step(top).1 == top.latest);
                            assert(top.latest is Some);
                            assert(Some(spec_run(top).1) == top.latest);
                            assert(spec_run(top).0 == self@);
                        }
                        return t;
                    }
                    if self.is_eof() {
                        proof {
                            assert(spec_step(top) == (self@, Some(TokenModel::Eof)));
                            assert(spec_run(top) == (self@, TokenModel::Eof));
                        }
                        return Some(HtmlToken::Eof);
                    }
                    self.append_attribute(c, false);
                    proof {
                        assert(spec_step(top).0 =~= self@);
                        assert(spec_run(top) == spec_run(self@));
                    }
                    continue;
                },
                State::AfterAttributeValueQuoted => {
                    if c == ' ' {
                        self.state = State::BeforeAttributeName;
                        proof {
                            assert(spec_step(top).0 =~= self@);
                            assert(spec_run(top) == spec_run(self@));
                        }
                        continue;
                    }
                    if c == '/' {
                        self.state = State::SelfClosingStartTag;
                        proof {
                            assert(spec_step(top).0 =~= self@);
                            assert(spec_run(top) == spec_run(self@));
                        }
                        continue;
                    }
                    if c == '>' {
                        self.state = State::Data;
                        let t = self.take_latest_token();
                        proof {
                            assert(spec_step(top).0 =~= self@);
                            assert(spec_step(top).1 == top.latest);
                            assert(top.latest is Some);
                            assert(Some(spec_run(top).1) == top.latest);
                            assert(spec_run(top).0 == self@);
                        }
                        return t;
                    }
                    if self.is_eof() {
                        proof {
                            assert(spec_step(top) == (self@, Some(TokenModel::Eof)));
                            assert(spec_run(top) == (self@, TokenModel::Eof));
                        }
                        return Some(HtmlToken::Eof);
                    }
                    self.reconsume = true;
                    self.state = State::BeforeAttributeName;
                    proof {
                        assert(spec_step(top).0 =~= self@);
                        assert(spec_run(top) == spec_run(self@));
                    }
                    continue;
                },
                State::SelfClosingStartTag => {
                    if c == '>' {
                        self.set_self_closing_flag();
                        self.state = State::Data;
                        let t = self.take_latest_token();
                        proof {
                            assert(spec_step(top).0 =~= self@);
                            assert(spec_step(top).1 == with_self_closing(after_read(top)).latest);
                            assert(top.latest is Some);
                            assert(Some(spec_run(top).1) == spec_step(top).1);
                            assert(spec_run(top).0 == self@);
                        }
                        return t;
                    }
                    if self.is_eof() {
                        proof {
                            assert(spec_step(top) == (self@, Some(TokenModel::Eof)));
                            assert(spec_run(top) == (self@, TokenModel::Eof));
                        }
                        return Some(HtmlToken::Eof);
                    }
                    proof {
                        assert(spec_step(top).0 =~= self@);
                        assert(spec_run(top) == spec_run(self@));
                    }
                    continue;
                },
                State::ScriptData => {
                    if c == '<' {
                        self.state = State::ScriptDataLessThanSign;
                        proof {
                            assert(spec_step(top).0 =~= self@);
                            assert(spec_run(top) == spec_run(self@));
                        }
                        continue;
                    }
                    if self.is_eof() {
                        proof {
                            assert(spec_step(top) == (self@, Some(TokenModel::Eof)));
                            assert(spec_run(top) == (self@, TokenModel::Eof));
                        }
                        return Some(HtmlToken::Eof);
                    }
                    proof {
                        assert(spec_step(top) == (self@, Some(TokenModel::Char { ch: c })));
                        assert(spec_run(top) == (self@, TokenModel::Char { ch: c }));
                    }
                    return Some(HtmlToken::Char(c));
                },
                State::ScriptDataLessThanSign => {
                    if c == '/' {
                        self.buf = Vec::new();
                        self.state = State::ScriptDataEndTagOpen;
                        proof {
                            assert(spec_step(top).0 =~= self@);
                            assert(spec_run(top) == spec_run(self@));
                        }
                        continue;
                    }
                    self.reconsume = true;
                    self.state = State::ScriptData;
                    proof {
                        assert(spec_step(top) == (self@, Some(TokenModel::Char { ch: '<' })));
                        assert(spec_run(top) == (self@, TokenModel::Char { ch: '<' }));
                    }
                    return Some(HtmlToken::Char('<'));
                },
                State::ScriptDataEndTagOpen => {
                    if is_ascii_alpha(c) {
                        self.reconsume = true;
                        self.state = State::ScriptDataEndTagName;
                        self.create_tag(false);
                        proof {
                            assert(spec_step(top).0 =~= self@);
                            assert(spec_run(top) == spec_run(self@));
                        }
                        continue;
                    }
                    self.reconsume = true;
                    self.state = State::ScriptData;
                    proof {
                        assert(spec_step(top) == (self@, Some(TokenModel::Char { ch: '<' })));
                        assert(spec_run(top) == (self@, TokenModel::Char { ch: '<' }));
                    }
                    return Some(HtmlToken::Char('<'));
                },
                State::ScriptDataEndTagName => {
                    if c == '>' {
                        self.state = State::Data;
                        let t = self.take_latest_token();
                        proof {
                            assert(spec_step(top).0 =~= self@);
                            assert(spec_step(top).1 == top.latest);
                            assert(top.latest is Some);
                            assert(Some(spec_run(top).1) == top.latest);
                            assert(spec_run(top).0 == self@);
                        }
                        return t;
                    }
                    if is_ascii_alpha(c) {
                        self.buf.push(c);
                        self.append_tag_name(to_lower(c));
                        proof {
                            assert(spec_step(top).0 =~= self@);
                            assert(spec_run(top) == spec_run(self@));
                        }
                        continue;
                    }
                    self.state = State::TemporaryBuffer;
                    let mut nb: Vec<char> = Vec::new();
                    nb.push('<');
                    nb.push('/');
                    nb.append(&mut self.buf);
                    nb.push(c);
                    self.buf = nb;
                    proof {
                        assert(self@.buf =~= seq!['<', '/'] + after_read(top).buf + seq![c]);
                        assert(spec_step(top).0 =~= self@);
                        assert(spec_run(top) == spec_run(self@));
                    }
                    continue;
                },
                State::TemporaryBuffer => {
                    self.reconsume = true;
                    if self.buf.len() == 0 {
                        self.state = State::ScriptData;
                        proof {
                            assert(spec_step(top).0 =~= self@);
                            assert(spec_run(top) == spec_run(self@));
                        }
                        continue;
                    }
                    let ch = self.buf[0];
                    self.buf.remove(0);
                    proof {
                        assert(self@.buf =~= after_read(top).buf.drop_first());
                        assert(spec_step(top).0 =~= self@);
                        assert(spec_step(top).1 == Some(TokenModel::Char { ch: ch }));
                        assert(spec_run(top) == (self@, TokenModel::Char { ch: ch }));
                    }
                    return Some(HtmlToken::Char(ch));
                },
            }
        }
    }

    /// Marks the pending start tag self-closing; a no-op when no start tag
    /// pends.
    fn set_self_closing_flag(&mut self)
        ensures
            final(self)@ == with_self_closing(old(self)@),
    {
        let lt = self.latest_token.take();
        match lt {
            Some(HtmlToken::StartTag { tag, self_closing, attributes }) => {
                self.latest_token = Some(
                    HtmlToken::StartTag { tag, self_closing: true, attributes },
                );
            },
            other => {
                self.latest_token = other;
            },
        }
        proof {
            assert(self@ =~= with_self_closing(old(self)@));
        }
    }
}

} // verus!

verus! {

/// Law: a machine step that emits a start tag with the self-closing flag
/// set fires only from the self-closing-start-tag state; every other
/// emission of a start tag carries a clear flag.
pub proof fn lemma_self_closing_only_from_its_state(m: TokModel)
    requires
        wf(m),
    ensures
        spec_step(m).1 matches Some(TokenModel::StartTag { self_closing: true, .. })
            ==> m.state == State::SelfClosingStartTag,
{
}

} // verus!

verus! {

/// Law: a run that emits the end-of-stream token leaves the scanner past
/// the end of the input; together with `next`'s contract, every call after
/// an `Eof` yields no token.
pub proof fn lemma_eof_is_final(m: TokModel)
    requires
        wf(m),
        running(m),
    ensures
        spec_run(m).1 == TokenModel::Eof ==> spec_run(m).0.pos >= m.input.len(),
    decreases m.input.len() + 2 - m.pos, rank(m),
{
    lemma_step_invariants(m);
    let s = spec_step(m);
    match s.1 {
        Some(t) => {},
        None => {
            lemma_eof_is_final(s.0);
        },
    }
}

} // verus!

verus! {

/// Law: a machine step never reorders or rewrites the attributes already
/// read off the pending start tag. Outside the three states that open a
/// fresh tag (and so discard any pending one), a step keeps every attribute
/// but the last unchanged and in place, may extend the last one's name or
/// value at the end, and may append a fresh attribute after it — so an
/// emitted start tag lists its attributes in source order.
pub proof fn lemma_attribute_order_kept(m: TokModel)
    requires
        wf(m),
        m.state != State::TagOpen,
        m.state != State::EndTagOpen,
        m.state != State::ScriptDataEndTagOpen,
    ensures
        m.latest matches Some(TokenModel::StartTag { attributes: a0, .. }) ==> (spec_step(
            m,
        ).0.latest matches Some(TokenModel::StartTag { attributes: a1, .. }) ==> {
            &&& a0.len() <= a1.len()
            &&& (forall|i: int| 0 <= i < a0.len() - 1 ==> a1[i] == a0[i])
            &&& (a0.len() > 0 ==> a0[a0.len() - 1].name.is_prefix_of(a1[a0.len() - 1].name)
                && a0[a0.len() - 1].value.is_prefix_of(a1[a0.len() - 1].value))
        }),
{
}

} // verus!
