//! Topic names, topic filters and the match relation between them.
use crate::buffer::{bytes_clone, bytes_view, string_push};
use crate::io::{decode_utf8, spec_decode_string, spec_encode_string, lemma_string_round_trip, MAX_FIELD_LEN};
use bytes::Bytes;
use crate::err::{DecodeError, DecodeErrorKind};
use crate::qos::QosLevel;
use vstd::prelude::*;
use vstd::std_specs::iter::IteratorSpec;

verus! {

broadcast use vstd::string::group_string_axioms;

/// The position of the first `/` in `s`, or the length of `s` if it has none.
pub open spec fn first_separator(s: Seq<char>) -> int
    decreases s.len(),
{
    if s.len() == 0 || s[0] == '/' {
        0
    } else {
        1 + first_separator(s.drop_first())
    }
}

/// The levels of a topic string: the pieces between its `/` characters. A
/// string without `/` is one level; the empty string is one empty level.
pub open spec fn split_levels(s: Seq<char>) -> Seq<Seq<char>>
    decreases s.len(),
{
    let i = first_separator(s);
    if 0 <= i < s.len() {
        seq![s.take(i)] + split_levels(s.skip(i + 1))
    } else {
        seq![s]
    }
}

/// The topic string of a list of levels: the levels with a `/` between each
/// two neighbours.
pub open spec fn join_levels(levels: Seq<Seq<char>>) -> Seq<char>
    decreases levels.len(),
{
    if levels.len() == 0 {
        Seq::<char>::empty()
    } else if levels.len() == 1 {
        levels[0]
    } else {
        join_levels(levels.drop_last()) + seq!['/'] + levels.last()
    }
}

/// Whether a level has no `/` in it.
pub open spec fn is_level(level: Seq<char>) -> bool {
    forall|i: int| 0 <= i < level.len() ==> level[i] != '/'
}

/// Whether a level begins with `$`, the mark of the reserved namespace.
pub open spec fn is_reserved(level: Seq<char>) -> bool {
    level.len() > 0 && level[0] == '$'
}

/// The multi-level wildcard `#`.
pub open spec fn multi_level() -> Seq<char> {
    seq!['#']
}

/// The single-level wildcard `+`.
pub open spec fn single_level() -> Seq<char> {
    seq!['+']
}

/// One level of a topic name or filter.
#[derive(PartialEq, Eq, Debug, Hash)]
pub enum TopicToken {
    /// A level that begins with `$`.
    Dollar(String),
    /// The level `#`.
    MultiLevel,
    /// The level `+`.
    SingleLevel,
    /// Any other level.
    String(String),
}

impl View for TopicToken {
    type V = Seq<char>;

    /// The text of the level.
    open spec fn view(&self) -> Seq<char> {
        match self {
            TopicToken::Dollar(text) => text@,
            TopicToken::MultiLevel => multi_level(),
            TopicToken::SingleLevel => single_level(),
            TopicToken::String(text) => text@,
        }
    }
}

impl TopicToken {
    /// The variant agrees with the text: `Dollar` holds a text that begins
    /// with `$`, and `String` holds a text that neither begins with `$` nor
    /// is a wildcard.
    pub open spec fn wf(&self) -> bool {
        match self {
            TopicToken::Dollar(text) => is_reserved(text@),
            TopicToken::MultiLevel => true,
            TopicToken::SingleLevel => true,
            TopicToken::String(text) => !is_reserved(text@) && text@ != multi_level() && text@
                != single_level(),
        }
    }

    pub fn as_str<'a>(&'a self) -> (s: &'a str)
        ensures
            s@ == self@,
    {
        match self {
            TopicToken::Dollar(text) => text.as_str(),
            TopicToken::MultiLevel => {
                proof {
                    reveal_strlit("#");
                }
                assert("#"@ =~= multi_level());
                "#"
            },
            TopicToken::SingleLevel => {
                proof {
                    reveal_strlit("+");
                }
                assert("+"@ =~= single_level());
                "+"
            },
            TopicToken::String(text) => text.as_str(),
        }
    }

    /// The token of a level: by its text alone.
    pub fn from_str(string: &str) -> (t: Self)
        ensures
            t.wf(),
            t@ == string@,
    {
        let mut chars = string.chars();
        let first: Option<char> = chars.next();
        let second: Option<char> = chars.next();
        let text: String = string.to_owned();
        assert(first is Some <==> string@.len() >= 1);
        assert(first is Some ==> first->0 == string@[0]);
        assert(second is Some <==> string@.len() >= 2);
        Self::classify(text, first, second.is_none())
    }

    /// The token for `text`, given its first character and whether it has at
    /// most one character.
    fn classify(text: String, first: Option<char>, short: bool) -> (t: Self)
        requires
            first is Some <==> text@.len() >= 1,
            first is Some ==> first->0 == text@[0],
            short <==> text@.len() <= 1,
        ensures
            t.wf(),
            t@ == text@,
    {
        match first {
            Some(c) => {
                if c == '$' {
                    TopicToken::Dollar(text)
                } else if short && c == '#' {
                    assert(text@ =~= multi_level());
                    TopicToken::MultiLevel
                } else if short && c == '+' {
                    assert(text@ =~= single_level());
                    TopicToken::SingleLevel
                } else {
                    TopicToken::String(text)
                }
            },
            None => TopicToken::String(text),
        }
    }
}

/// The texts of a list of tokens, in order.
pub open spec fn token_texts(tokens: Seq<TopicToken>) -> Seq<Seq<char>> {
    Seq::new(tokens.len(), |i: int| tokens[i]@)
}

/// The levels of a topic name: at least one, none with a `/` in it, none a
/// wildcard, and not the single empty level that the empty string would
/// give.
pub open spec fn valid_name_levels(levels: Seq<Seq<char>>) -> bool {
    &&& levels.len() >= 1
    &&& !(levels.len() == 1 && levels[0].len() == 0)
    &&& forall|i: int|
        0 <= i < levels.len() ==> is_level(#[trigger] levels[i]) && levels[i] != multi_level()
            && levels[i] != single_level()
}

/// The levels of a topic filter: at least one, none with a `/` in it, `#`
/// nowhere but in the last place, and not the single empty level that the
/// empty string would give.
pub open spec fn valid_filter_levels(levels: Seq<Seq<char>>) -> bool {
    &&& levels.len() >= 1
    &&& !(levels.len() == 1 && levels[0].len() == 0)
    &&& forall|i: int|
        0 <= i < levels.len() ==> is_level(#[trigger] levels[i]) && (i < levels.len() - 1
            ==> levels[i] != multi_level())
}

/// Whether one level of a filter accepts one level of a name at place `i`.
/// `+` accepts every level, but in the first place none that begins with
/// `$`; any other level accepts only itself.
pub open spec fn level_matches(filter_level: Seq<char>, name_level: Seq<char>, i: int) -> bool {
    if filter_level == single_level() {
        i == 0 ==> !is_reserved(name_level)
    } else {
        filter_level == name_level
    }
}

/// The match relation between the levels of a filter and those of a name.
///
/// A filter that ends in `#` is open-ended: the levels before the `#` must
/// accept the levels of the name in the same places, and the name may go on
/// with any number of further levels, none of which begins with `$`. Any
/// other filter must have as many levels as the name, each accepting the
/// level in its place.
pub open spec fn levels_match(filter: Seq<Seq<char>>, name: Seq<Seq<char>>) -> bool {
    let open_ended = filter.len() > 0 && filter.last() == multi_level();
    let fixed = if open_ended {
        filter.len() - 1
    } else {
        filter.len() as int
    };
    &&& if open_ended {
        name.len() >= fixed
    } else {
        name.len() == fixed
    }
    &&& forall|i: int| 0 <= i < fixed ==> #[trigger] level_matches(filter[i], name[i], i)
    &&& open_ended ==> forall|j: int| fixed <= j < name.len() ==> !is_reserved(#[trigger] name[j])
}

/// Splits `s` into tokens, one per level.
fn parse_levels(s: &str) -> (tokens: Vec<TopicToken>)
    ensures
        tokens@.len() >= 1,
        token_texts(tokens@) == split_levels(s@),
        forall|i: int| 0 <= i < tokens@.len() ==> (#[trigger] tokens@[i]).wf() && is_level(tokens@[i]@),
{
    let mut tokens: Vec<TopicToken> = Vec::new();
    let mut chars = s.chars();
    let mut current: String = String::new();
    let mut first: Option<char> = None;
    let mut short: bool = true;
    let ghost mut start: int = 0;
    let ghost mut pos: int = 0;
    assert(token_texts(tokens@) + split_levels(s@.skip(0)) =~= split_levels(s@)) by {
        assert(s@.skip(0) =~= s@);
    }
    assert(s@.subrange(0, 0) =~= Seq::<char>::empty());
    loop
        invariant
            0 <= start <= pos <= s@.len(),
            chars.remaining() == s@.skip(pos),
            current@ == s@.subrange(start, pos),
            is_level(current@),
            first is Some <==> current@.len() >= 1,
            first is Some ==> first->0 == current@[0],
            short <==> current@.len() <= 1,
            token_texts(tokens@) + split_levels(s@.skip(start)) == split_levels(s@),
            forall|i: int|
                0 <= i < tokens@.len() ==> (#[trigger] tokens@[i]).wf() && is_level(tokens@[i]@),
        ensures
            pos == s@.len(),
        decreases s@.len() - pos,
    {
        match chars.next() {
            None => {
                break ;
            },
            Some(c) => {
                assert(c == s@[pos]);
                assert(chars.remaining() =~= s@.skip(pos + 1));
                if c == '/' {
                    let token = TopicToken::classify(current, first, short);
                    proof {
                        let tail = s@.skip(start);
                        lemma_first_separator(tail, pos - start);
                        assert(tail.take(pos - start) =~= s@.subrange(start, pos));
                        assert(tail.skip(pos - start + 1) =~= s@.skip(pos + 1));
                        assert(token_texts(tokens@.push(token)) =~= token_texts(tokens@) + seq![
                            token@,
                        ]);
                        assert(token_texts(tokens@.push(token)) + split_levels(s@.skip(pos + 1))
                            =~= token_texts(tokens@) + split_levels(tail));
                    }
                    tokens.push(token);
                    current = String::new();
                    first = None;
                    short = true;
                    proof {
                        start = pos + 1;
                        assert(s@.subrange(start, pos + 1) =~= Seq::<char>::empty());
                    }
                } else {
                    short = first.is_none();
                    if first.is_none() {
                        first = Some(c);
                    }
                    string_push(&mut current, c);
                    assert(current@ =~= s@.subrange(start, pos + 1));
                }
                proof {
                    pos = pos + 1;
                }
            },
        }
    }
    let token = TopicToken::classify(current, first, short);
    proof {
        let tail = s@.skip(start);
        lemma_first_separator(tail, pos - start);
        assert(tail =~= s@.subrange(start, pos));
        assert(token_texts(tokens@.push(token)) =~= token_texts(tokens@) + seq![token@]);
    }
    tokens.push(token);
    tokens
}

/// Where the first `k` characters of `s` are no `/` and the next one, if
/// there is one, is, `k` is the place of the first separator.
pub proof fn lemma_first_separator(s: Seq<char>, k: int)
    requires
        0 <= k <= s.len(),
        forall|j: int| 0 <= j < k ==> s[j] != '/',
        k < s.len() ==> s[k] == '/',
    ensures
        first_separator(s) == k,
    decreases s.len(),
{
    if k > 0 {
        let rest = s.drop_first();
        assert forall|j: int| 0 <= j < k - 1 implies rest[j] != '/' by {
            assert(rest[j] == s[j + 1]);
        }
        lemma_first_separator(rest, k - 1);
    }
}

impl Clone for TopicToken {
    fn clone(&self) -> (r: Self)
        ensures
            r == *self,
    {
        match self {
            TopicToken::Dollar(text) => TopicToken::Dollar(text.clone()),
            TopicToken::MultiLevel => TopicToken::MultiLevel,
            TopicToken::SingleLevel => TopicToken::SingleLevel,
            TopicToken::String(text) => TopicToken::String(text.clone()),
        }
    }
}

/// Whether two well-formed tokens have the same text.
fn same_token(a: &TopicToken, b: &TopicToken) -> (r: bool)
    requires
        a.wf(),
        b.wf(),
    ensures
        r == (a@ == b@),
{
    match (a, b) {
        (TopicToken::Dollar(x), TopicToken::Dollar(y)) => *x == *y,
        (TopicToken::String(x), TopicToken::String(y)) => *x == *y,
        (TopicToken::MultiLevel, TopicToken::MultiLevel) => true,
        (TopicToken::SingleLevel, TopicToken::SingleLevel) => true,
        (TopicToken::MultiLevel, TopicToken::SingleLevel) => {
            assert(multi_level()[0] != single_level()[0]);
            false
        },
        (TopicToken::SingleLevel, TopicToken::MultiLevel) => {
            assert(multi_level()[0] != single_level()[0]);
            false
        },
        (TopicToken::MultiLevel, _) => {
            assert(!is_reserved(multi_level()));
            false
        },
        (TopicToken::SingleLevel, _) => {
            assert(!is_reserved(single_level()));
            false
        },
        (_, TopicToken::MultiLevel) => {
            assert(!is_reserved(multi_level()));
            false
        },
        (_, TopicToken::SingleLevel) => {
            assert(!is_reserved(single_level()));
            false
        },
        _ => false,
    }
}

/// Whether two lists of well-formed tokens have the same texts in order.
fn same_tokens(a: &Vec<TopicToken>, b: &Vec<TopicToken>) -> (r: bool)
    requires
        forall|i: int| 0 <= i < a@.len() ==> (#[trigger] a@[i]).wf(),
        forall|i: int| 0 <= i < b@.len() ==> (#[trigger] b@[i]).wf(),
    ensures
        r == (token_texts(a@) == token_texts(b@)),
{
    if a.len() != b.len() {
        assert(token_texts(a@).len() != token_texts(b@).len());
        return false;
    }
    let mut i: usize = 0;
    while i < a.len()
        invariant
            i <= a@.len(),
            a@.len() == b@.len(),
            forall|k: int| 0 <= k < a@.len() ==> (#[trigger] a@[k]).wf(),
            forall|k: int| 0 <= k < b@.len() ==> (#[trigger] b@[k]).wf(),
            forall|k: int| 0 <= k < i ==> (#[trigger] a@[k])@ == b@[k]@,
        decreases a@.len() - i,
    {
        if !same_token(&a[i], &b[i]) {
            assert(token_texts(a@)[i as int] != token_texts(b@)[i as int]);
            return false;
        }
        i = i + 1;
    }
    assert(token_texts(a@) =~= token_texts(b@));
    true
}

/// A copy of a list of tokens.
fn clone_tokens(a: &Vec<TopicToken>) -> (r: Vec<TopicToken>)
    ensures
        r@ == a@,
{
    let mut out: Vec<TopicToken> = Vec::new();
    let mut i: usize = 0;
    while i < a.len()
        invariant
            i <= a@.len(),
            out@ == a@.take(i as int),
        decreases a@.len() - i,
    {
        out.push(a[i].clone());
        assert(out@ =~= a@.take(i + 1));
        i = i + 1;
    }
    assert(a@.take(a@.len() as int) =~= a@);
    out
}

/// The topic string of a list of tokens.
fn render_tokens(tokens: &Vec<TopicToken>) -> (text: String)
    ensures
        text@ == join_levels(token_texts(tokens@)),
{
    let mut text: String = String::new();
    let mut i: usize = 0;
    while i < tokens.len()
        invariant
            i <= tokens@.len(),
            text@ == join_levels(token_texts(tokens@).take(i as int)),
        decreases tokens@.len() - i,
    {
        let ghost done = token_texts(tokens@).take(i as int);
        let ghost next = token_texts(tokens@).take(i + 1);
        assert(next.drop_last() =~= done);
        assert(next.last() == tokens@[i as int]@);
        if i > 0 {
            string_push(&mut text, '/');
            assert(text@ =~= join_levels(done) + seq!['/']);
        } else {
            assert(text@ + tokens@[i as int]@ =~= tokens@[i as int]@);
        }
        text.append(tokens[i].as_str());
        i = i + 1;
    }
    assert(token_texts(tokens@).take(tokens@.len() as int) =~= token_texts(tokens@));
    text
}

/// A topic name: the levels of the topic that a message is published to.
#[derive(Debug, Hash)]
pub struct TopicName(Vec<TopicToken>);

impl View for TopicName {
    type V = Seq<Seq<char>>;

    /// The levels of the name, first to last.
    closed spec fn view(&self) -> Seq<Seq<char>> {
        token_texts(self.0@)
    }
}

impl TopicName {
    #[verifier::type_invariant]
    pub closed spec fn inv(&self) -> bool {
        &&& valid_name_levels(self@)
        &&& forall|i: int| 0 <= i < self.0@.len() ==> (#[trigger] self.0@[i]).wf()
    }

    /// A name that meets the invariant of its type has valid levels.
    pub proof fn lemma_valid(&self)
        requires
            self.inv(),
        ensures
            valid_name_levels(self@),
    {
    }

    /// Parses a topic name. The string must not be empty and none of its
    /// levels may be `+` or `#`; anything else is `MalformedTopicName`.
    pub fn from_str(str: &str) -> (r: Result<Self, DecodeError>)
        ensures
            match r {
                Ok(name) => valid_name_levels(split_levels(str@)) && name@ == split_levels(str@),
                Err(e) => !valid_name_levels(split_levels(str@)) && e.spec_kind()
                    == DecodeErrorKind::MalformedTopicName,
            },
    {
        proof {
            lemma_split_single(str@);
        }
        if str.is_empty() {
            return Err(
                DecodeError::of(DecodeErrorKind::MalformedTopicName, "Topic name is empty"),
            );
        }
        let tokens = parse_levels(str);
        let mut i: usize = 0;
        while i < tokens.len()
            invariant
                i <= tokens@.len(),
                token_texts(tokens@) == split_levels(str@),
                forall|k: int|
                    0 <= k < tokens@.len() ==> (#[trigger] tokens@[k]).wf() && is_level(
                        tokens@[k]@,
                    ),
                forall|k: int|
                    0 <= k < i ==> (#[trigger] tokens@[k])@ != multi_level() && tokens@[k]@
                        != single_level(),
            decreases tokens@.len() - i,
        {
            match &tokens[i] {
                TopicToken::MultiLevel | TopicToken::SingleLevel => {
                    assert(token_texts(tokens@)[i as int] == tokens@[i as int]@);
                    return Err(
                        DecodeError::of(
                            DecodeErrorKind::MalformedTopicName,
                            "Topic name holds a wildcard level",
                        ),
                    );
                },
                _ => {},
            }
            i = i + 1;
        }
        assert forall|k: int| 0 <= k < token_texts(tokens@).len() implies is_level(
            #[trigger] token_texts(tokens@)[k],
        ) && token_texts(tokens@)[k] != multi_level() && token_texts(tokens@)[k]
            != single_level() by {
            assert(token_texts(tokens@)[k] == tokens@[k]@);
        }
        Ok(TopicName(tokens))
    }

    /// The name as a string: its levels joined by `/`.
    pub fn to_string(self) -> (text: String)
        ensures
            text@ == join_levels(self@),
            valid_name_levels(self@),
    {
        proof {
            use_type_invariant(&self);
        }
        render_tokens(&self.0)
    }

    /// The length in bytes of the name as a UTF-8 string.
    pub fn len(&self) -> (n: usize)
        ensures
            n == vstd::utf8::encode_utf8(join_levels(self@)).len(),
    {
        let text = render_tokens(&self.0);
        text.as_str().as_bytes().len()
    }

    /// The number of levels of the name.
    pub fn levels(&self) -> (n: usize)
        ensures
            n == self@.len(),
            valid_name_levels(self@),
    {
        proof {
            use_type_invariant(self);
        }
        self.0.len()
    }

    /// Whether the first level of the name begins with `$`.
    pub fn is_reserved(&self) -> (b: bool)
        ensures
            b == is_reserved(self@[0]),
    {
        proof {
            use_type_invariant(self);
        }
        assert(self@[0] == self.0@[0]@);
        match &self.0[0] {
            TopicToken::Dollar(_) => true,
            TopicToken::String(_) => false,
            TopicToken::MultiLevel => {
                assert(!is_reserved(multi_level()));
                false
            },
            TopicToken::SingleLevel => {
                assert(!is_reserved(single_level()));
                false
            },
        }
    }
}

impl Clone for TopicName {
    fn clone(&self) -> (r: Self)
        ensures
            r@ == self@,
    {
        proof {
            use_type_invariant(self);
        }
        TopicName(clone_tokens(&self.0))
    }
}

impl PartialEq for TopicName {
    fn eq(&self, other: &Self) -> (r: bool) {
        proof {
            use_type_invariant(self);
            use_type_invariant(other);
        }
        same_tokens(&self.0, &other.0)
    }
}

impl Eq for TopicName {

}

impl vstd::std_specs::cmp::PartialEqSpecImpl for TopicName {
    open spec fn obeys_eq_spec() -> bool {
        true
    }

    open spec fn eq_spec(&self, other: &Self) -> bool {
        self@ == other@
    }
}

/// A string with no `/` is one level, and a string that splits into the one
/// empty level is empty.
pub proof fn lemma_split_single(s: Seq<char>)
    ensures
        split_levels(s).len() >= 1,
        split_levels(s).len() == 1 ==> split_levels(s)[0] == s,
    decreases s.len(),
{
    let i = first_separator(s);
    if 0 <= i < s.len() {
        lemma_split_single(s.skip(i + 1));
    }
}

/// A topic filter: the levels of a subscription, which may hold wildcards.
#[derive(Debug)]
pub struct TopicFilter(Vec<TopicToken>);

impl View for TopicFilter {
    type V = Seq<Seq<char>>;

    /// The levels of the filter, first to last.
    closed spec fn view(&self) -> Seq<Seq<char>> {
        token_texts(self.0@)
    }
}

impl TopicFilter {
    #[verifier::type_invariant]
    pub closed spec fn inv(&self) -> bool {
        &&& valid_filter_levels(self@)
        &&& forall|i: int| 0 <= i < self.0@.len() ==> (#[trigger] self.0@[i]).wf()
    }

    /// A filter that meets the invariant of its type has valid levels.
    pub proof fn lemma_valid(&self)
        requires
            self.inv(),
        ensures
            valid_filter_levels(self@),
    {
    }

    /// Parses a topic filter. The string must not be empty and `#` may stand
    /// only as its last level; anything else is `MalformedTopicFilter`.
    pub fn from_str(str: &str) -> (r: Result<Self, DecodeError>)
        ensures
            match r {
                Ok(filter) => valid_filter_levels(split_levels(str@)) && filter@ == split_levels(
                    str@,
                ),
                Err(e) => !valid_filter_levels(split_levels(str@)) && e.spec_kind()
                    == DecodeErrorKind::MalformedTopicFilter,
            },
    {
        proof {
            lemma_split_single(str@);
        }
        if str.is_empty() {
            return Err(
                DecodeError::of(
                    DecodeErrorKind::MalformedTopicFilter,
                    "Invalid topic filter, filter contains no bytes.",
                ),
            );
        }
        let tokens = parse_levels(str);
        let mut i: usize = 0;
        while i < tokens.len() - 1
            invariant
                i <= tokens@.len(),
                tokens@.len() >= 1,
                token_texts(tokens@) == split_levels(str@),
                forall|k: int|
                    0 <= k < tokens@.len() ==> (#[trigger] tokens@[k]).wf() && is_level(
                        tokens@[k]@,
                    ),
                forall|k: int| 0 <= k < i ==> (#[trigger] tokens@[k])@ != multi_level(),
            decreases tokens@.len() - i,
        {
            match &tokens[i] {
                TopicToken::MultiLevel => {
                    assert(token_texts(tokens@)[i as int] == tokens@[i as int]@);
                    return Err(
                        DecodeError::of(
                            DecodeErrorKind::MalformedTopicFilter,
                            "Invalid topic filter: # before the last level",
                        ),
                    );
                },
                TopicToken::SingleLevel => {
                    assert(multi_level()[0] != single_level()[0]);
                },
                TopicToken::Dollar(_) => {
                    assert(!is_reserved(multi_level()));
                },
                TopicToken::String(_) => {},
            }
            i = i + 1;
        }
        assert forall|k: int| 0 <= k < token_texts(tokens@).len() implies is_level(
            #[trigger] token_texts(tokens@)[k],
        ) && (k < token_texts(tokens@).len() - 1 ==> token_texts(tokens@)[k] != multi_level()) by {
            assert(token_texts(tokens@)[k] == tokens@[k]@);
        }
        Ok(TopicFilter(tokens))
    }

    /// The filter as a string: its levels joined by `/`.
    pub fn to_string(self) -> (text: String)
        ensures
            text@ == join_levels(self@),
            valid_filter_levels(self@),
    {
        proof {
            use_type_invariant(&self);
        }
        render_tokens(&self.0)
    }

    /// The length in bytes of the filter as a UTF-8 string.
    pub fn len(&self) -> (n: usize)
        ensures
            n == vstd::utf8::encode_utf8(join_levels(self@)).len(),
    {
        let text = render_tokens(&self.0);
        text.as_str().as_bytes().len()
    }

    /// Whether the filter matches the name.
    #[verifier::loop_isolation(false)]
    pub fn matches(&self, name: &TopicName) -> (b: bool)
        ensures
            b == levels_match(self@, name@),
            valid_filter_levels(self@),
            valid_name_levels(name@),
    {
        proof {
            use_type_invariant(self);
            use_type_invariant(name);
        }
        let n: usize = self.0.len();
        let m: usize = name.0.len();
        let ghost filter = self@;
        let ghost levels = name@;
        let mut i: usize = 0;
        while i < n
            invariant
                i <= n,
                i <= m,
                n == self.0@.len(),
                m == name.0@.len(),
                filter == token_texts(self.0@),
                levels == token_texts(name.0@),
                valid_filter_levels(filter),
                valid_name_levels(levels),
                forall|k: int| 0 <= k < self.0@.len() ==> (#[trigger] self.0@[k]).wf(),
                forall|k: int| 0 <= k < name.0@.len() ==> (#[trigger] name.0@[k]).wf(),
                forall|k: int| 0 <= k < i ==> #[trigger] level_matches(filter[k], levels[k], k),
                forall|k: int| 0 <= k < i ==> filter[k] != multi_level(),
            decreases n - i,
        {
            assert(filter[i as int] == self.0@[i as int]@);
            match &self.0[i] {
                TopicToken::MultiLevel => {
                    assert(is_level(filter[i as int]));
                    assert(i == n - 1);
                    let mut j: usize = i;
                    while j < m
                        invariant
                            i <= j <= m,
                            m == name.0@.len(),
                            levels == token_texts(name.0@),
                            forall|k: int| 0 <= k < name.0@.len() ==> (#[trigger] name.0@[k]).wf(),
                            forall|k: int| i <= k < j ==> !is_reserved(#[trigger] levels[k]),
                        decreases m - j,
                    {
                        assert(levels[j as int] == name.0@[j as int]@);
                        match &name.0[j] {
                            TopicToken::Dollar(_) => {
                                return false;
                            },
                            TopicToken::String(_) => {},
                            TopicToken::MultiLevel => {
                                assert(!is_reserved(multi_level()));
                            },
                            TopicToken::SingleLevel => {
                                assert(!is_reserved(single_level()));
                            },
                        }
                        j = j + 1;
                    }
                    return true;
                },
                TopicToken::SingleLevel => {
                    assert(multi_level()[0] != single_level()[0]);
                    if i >= m {
                        return false;
                    }
                    assert(levels[i as int] == name.0@[i as int]@);
                    if i == 0 {
                        match &name.0[0] {
                            TopicToken::Dollar(_) => {
                                assert(!level_matches(filter[0], levels[0], 0));
                                return false;
                            },
                            TopicToken::String(_) => {},
                            TopicToken::MultiLevel => {
                                assert(!is_reserved(multi_level()));
                            },
                            TopicToken::SingleLevel => {
                                assert(!is_reserved(single_level()));
                            },
                        }
                    }
                },
                _ => {
                    assert(filter[i as int] != multi_level() && filter[i as int]
                        != single_level()) by {
                        assert(!is_reserved(multi_level()));
                        assert(!is_reserved(single_level()));
                    }
                    if i >= m {
                        return false;
                    }
                    assert(levels[i as int] == name.0@[i as int]@);
                    if !same_token(&self.0[i], &name.0[i]) {
                        assert(!level_matches(filter[i as int], levels[i as int], i as int));
                        return false;
                    }
                },
            }
            i = i + 1;
        }
        n == m
    }
}

impl Clone for TopicFilter {
    fn clone(&self) -> (r: Self)
        ensures
            r@ == self@,
    {
        proof {
            use_type_invariant(self);
        }
        TopicFilter(clone_tokens(&self.0))
    }
}

impl PartialEq for TopicFilter {
    fn eq(&self, other: &Self) -> (r: bool) {
        proof {
            use_type_invariant(self);
            use_type_invariant(other);
        }
        same_tokens(&self.0, &other.0)
    }
}

impl Eq for TopicFilter {

}

impl vstd::std_specs::cmp::PartialEqSpecImpl for TopicFilter {
    open spec fn obeys_eq_spec() -> bool {
        true
    }

    open spec fn eq_spec(&self, other: &Self) -> bool {
        self@ == other@
    }
}

/// A name compares equal to a filter when the filter matches it.
impl PartialEq<TopicFilter> for TopicName {
    fn eq(&self, filter: &TopicFilter) -> (r: bool) {
        filter.matches(self)
    }
}

impl vstd::std_specs::cmp::PartialEqSpecImpl<TopicFilter> for TopicName {
    open spec fn obeys_eq_spec() -> bool {
        true
    }

    open spec fn eq_spec(&self, filter: &TopicFilter) -> bool {
        levels_match(filter@, self@)
    }
}

/// A filter compares equal to a name when it matches the name.
impl PartialEq<TopicName> for TopicFilter {
    fn eq(&self, name: &TopicName) -> (r: bool) {
        self.matches(name)
    }
}

impl vstd::std_specs::cmp::PartialEqSpecImpl<TopicName> for TopicFilter {
    open spec fn obeys_eq_spec() -> bool {
        true
    }

    open spec fn eq_spec(&self, name: &TopicName) -> bool {
        levels_match(self@, name@)
    }
}

/// Reads a topic name field: a text field that parses as a topic name.
pub open spec fn spec_decode_topic_name(b: Seq<u8>) -> Result<
    (Seq<Seq<char>>, Seq<u8>),
    DecodeErrorKind,
> {
    match spec_decode_string(b) {
        Err(k) => Err(k),
        Ok((text, rest)) => if valid_name_levels(split_levels(text)) {
            Ok((split_levels(text), rest))
        } else {
            Err(DecodeErrorKind::MalformedTopicName)
        },
    }
}

/// Reads a topic filter field: a text field that parses as a topic filter.
pub open spec fn spec_decode_topic_filter(b: Seq<u8>) -> Result<
    (Seq<Seq<char>>, Seq<u8>),
    DecodeErrorKind,
> {
    match spec_decode_string(b) {
        Err(k) => Err(k),
        Ok((text, rest)) => if valid_filter_levels(split_levels(text)) {
            Ok((split_levels(text), rest))
        } else {
            Err(DecodeErrorKind::MalformedTopicFilter)
        },
    }
}

impl TopicName {
    /// Reads a topic name field and consumes it. On failure the buffer is
    /// left as it was.
    pub fn decode(bytes: &mut Bytes) -> (r: Result<Self, DecodeError>)
        ensures
            match r {
                Ok(name) => spec_decode_topic_name(bytes_view(*old(bytes))) == Ok::<
                    (Seq<Seq<char>>, Seq<u8>),
                    DecodeErrorKind,
                >((name@, bytes_view(*final(bytes)))),
                Err(e) => spec_decode_topic_name(bytes_view(*old(bytes))) == Err::<
                    (Seq<Seq<char>>, Seq<u8>),
                    DecodeErrorKind,
                >(e.spec_kind()) && *final(bytes) == *old(bytes),
            },
    {
        let mut cursor = bytes_clone(bytes);
        let text = match decode_utf8(&mut cursor) {
            Ok(text) => text,
            Err(e) => {
                return Err(e);
            },
        };
        match TopicName::from_str(text.as_str()) {
            Ok(name) => {
                *bytes = cursor;
                Ok(name)
            },
            Err(e) => Err(e),
        }
    }
}

impl TopicFilter {
    /// Reads a topic filter field and consumes it. On failure the buffer is
    /// left as it was.
    pub fn decode(bytes: &mut Bytes) -> (r: Result<Self, DecodeError>)
        ensures
            match r {
                Ok(filter) => spec_decode_topic_filter(bytes_view(*old(bytes))) == Ok::<
                    (Seq<Seq<char>>, Seq<u8>),
                    DecodeErrorKind,
                >((filter@, bytes_view(*final(bytes)))),
                Err(e) => spec_decode_topic_filter(bytes_view(*old(bytes))) == Err::<
                    (Seq<Seq<char>>, Seq<u8>),
                    DecodeErrorKind,
                >(e.spec_kind()) && *final(bytes) == *old(bytes),
            },
    {
        let mut cursor = bytes_clone(bytes);
        let text = match decode_utf8(&mut cursor) {
            Ok(text) => text,
            Err(e) => {
                return Err(e);
            },
        };
        match TopicFilter::from_str(text.as_str()) {
            Ok(filter) => {
                *bytes = cursor;
                Ok(filter)
            },
            Err(e) => Err(e),
        }
    }
}

/// One entry of a SUBSCRIBE: a filter and the QoS asked for.
#[derive(Debug, PartialEq, Eq)]
pub struct TopicSubscription {
    filter: TopicFilter,
    qos: QosLevel,
}

impl View for TopicSubscription {
    type V = (Seq<Seq<char>>, QosLevel);

    closed spec fn view(&self) -> (Seq<Seq<char>>, QosLevel) {
        (self.filter@, self.qos)
    }
}

impl TopicSubscription {
    pub fn new(filter: TopicFilter, qos: QosLevel) -> (s: Self)
        ensures
            s@ == (filter@, qos),
    {
        Self { filter, qos }
    }

    pub fn filter(&self) -> (f: &TopicFilter)
        ensures
            f@ == self@.0,
            valid_filter_levels(f@),
    {
        proof {
            use_type_invariant(&self.filter);
        }
        &self.filter
    }

    pub fn qos(&self) -> (q: QosLevel)
        ensures
            q == self@.1,
    {
        self.qos
    }
}

impl Clone for TopicSubscription {
    fn clone(&self) -> (r: Self)
        ensures
            r@ == self@,
    {
        Self { filter: self.filter.clone(), qos: self.qos }
    }
}

/// One entry of a SUBSCRIBE as the decoder found it: a subscription, or the
/// mark of a filter that did not parse.
#[derive(Debug, PartialEq, Eq)]
pub enum TopicFilterResult {
    Valid(TopicSubscription),
    Invalid,
}

impl View for TopicFilterResult {
    type V = Option<(Seq<Seq<char>>, QosLevel)>;

    open spec fn view(&self) -> Option<(Seq<Seq<char>>, QosLevel)> {
        match self {
            TopicFilterResult::Valid(sub) => Some(sub@),
            TopicFilterResult::Invalid => None,
        }
    }
}

impl Clone for TopicFilterResult {
    fn clone(&self) -> (r: Self)
        ensures
            r@ == self@,
    {
        match self {
            TopicFilterResult::Valid(sub) => TopicFilterResult::Valid(sub.clone()),
            TopicFilterResult::Invalid => TopicFilterResult::Invalid,
        }
    }
}

/// What `first_separator` finds: every character before it is no `/`, and
/// the one at it, if there is one, is.
pub proof fn lemma_first_separator_found(s: Seq<char>)
    ensures
        0 <= first_separator(s) <= s.len(),
        forall|j: int| 0 <= j < first_separator(s) ==> s[j] != '/',
        first_separator(s) < s.len() ==> s[first_separator(s)] == '/',
    decreases s.len(),
{
    if s.len() == 0 || s[0] == '/' {
    } else {
        let rest = s.drop_first();
        lemma_first_separator_found(rest);
        assert forall|j: int| 0 <= j < first_separator(s) implies s[j] != '/' by {
            if j > 0 {
                assert(s[j] == rest[j - 1]);
            }
        }
        assert(first_separator(s) < s.len() ==> s[first_separator(s)] == rest[first_separator(
            rest,
        )]);
    }
}

/// Splitting two strings joined by a `/` gives the levels of the first
/// followed by the levels of the second.
pub proof fn lemma_split_concat(a: Seq<char>, b: Seq<char>)
    ensures
        split_levels(a + seq!['/'] + b) == split_levels(a) + split_levels(b),
    decreases a.len(),
{
    let whole = a + seq!['/'] + b;
    let i = first_separator(a);
    lemma_first_separator_found(a);
    assert forall|j: int| 0 <= j < i implies whole[j] != '/' by {
        assert(whole[j] == a[j]);
    }
    if i < a.len() {
        assert(whole[i] == a[i]);
        lemma_first_separator(whole, i);
        assert(whole.take(i) =~= a.take(i));
        assert(whole.skip(i + 1) =~= a.skip(i + 1) + seq!['/'] + b);
        lemma_split_concat(a.skip(i + 1), b);
        assert(split_levels(whole) =~= split_levels(a) + split_levels(b));
    } else {
        assert(whole[i] == '/');
        lemma_first_separator(whole, i);
        assert(whole.take(i) =~= a);
        assert(whole.skip(i + 1) =~= b);
    }
}

/// Splitting the topic string of a list of levels gives the list back,
/// provided that there is at least one level and none has a `/` in it.
pub proof fn lemma_split_join(levels: Seq<Seq<char>>)
    requires
        levels.len() >= 1,
        forall|i: int| 0 <= i < levels.len() ==> is_level(#[trigger] levels[i]),
    ensures
        split_levels(join_levels(levels)) == levels,
    decreases levels.len(),
{
    if levels.len() == 1 {
        assert(is_level(levels[0]));
        lemma_first_separator(levels[0], levels[0].len() as int);
        assert(split_levels(levels[0]) =~= levels);
    } else {
        let init = levels.drop_last();
        let last = levels.last();
        assert forall|i: int| 0 <= i < init.len() implies is_level(#[trigger] init[i]) by {
            assert(init[i] == levels[i]);
        }
        lemma_split_join(init);
        lemma_split_concat(join_levels(init), last);
        assert(is_level(last));
        lemma_first_separator(last, last.len() as int);
        assert(split_levels(last) =~= seq![last]);
        assert(init + seq![last] =~= levels);
    }
}

/// A list of levels that begins with `first` has the topic string of the
/// rest behind `first` and a `/`.
pub proof fn lemma_join_front(first: Seq<char>, rest: Seq<Seq<char>>)
    requires
        rest.len() >= 1,
    ensures
        join_levels(seq![first] + rest) == first + seq!['/'] + join_levels(rest),
    decreases rest.len(),
{
    let all = seq![first] + rest;
    assert(all.drop_last() =~= seq![first] + rest.drop_last());
    assert(all.last() == rest.last());
    if rest.len() == 1 {
        assert(all.drop_last() =~= seq![first]);
        assert(join_levels(all.drop_last()) == first);
        assert(join_levels(rest) == rest[0]);
    } else {
        lemma_join_front(first, rest.drop_last());
        assert(join_levels(all) =~= first + seq!['/'] + join_levels(rest));
    }
}

/// Joining the levels of a string gives the string back.
pub proof fn lemma_join_split(s: Seq<char>)
    ensures
        join_levels(split_levels(s)) == s,
    decreases s.len(),
{
    let i = first_separator(s);
    lemma_first_separator_found(s);
    if 0 <= i < s.len() {
        let rest = s.skip(i + 1);
        lemma_join_split(rest);
        lemma_split_single(rest);
        lemma_join_front(s.take(i), split_levels(rest));
        assert(s.take(i) + seq!['/'] + rest =~= s);
    }
}

/// A topic name written as a text field and read back, whatever follows it,
/// is the same name.
pub proof fn lemma_topic_name_round_trip(levels: Seq<Seq<char>>, rest: Seq<u8>)
    requires
        valid_name_levels(levels),
        vstd::utf8::encode_utf8(join_levels(levels)).len() <= MAX_FIELD_LEN,
    ensures
        spec_decode_topic_name(spec_encode_string(join_levels(levels)) + rest) == Ok::<
            (Seq<Seq<char>>, Seq<u8>),
            DecodeErrorKind,
        >((levels, rest)),
{
    lemma_string_round_trip(join_levels(levels), rest);
    lemma_split_join(levels);
}

/// A topic filter written as a text field and read back, whatever follows
/// it, is the same filter.
pub proof fn lemma_topic_filter_round_trip(levels: Seq<Seq<char>>, rest: Seq<u8>)
    requires
        valid_filter_levels(levels),
        vstd::utf8::encode_utf8(join_levels(levels)).len() <= MAX_FIELD_LEN,
    ensures
        spec_decode_topic_filter(spec_encode_string(join_levels(levels)) + rest) == Ok::<
            (Seq<Seq<char>>, Seq<u8>),
            DecodeErrorKind,
        >((levels, rest)),
{
    lemma_string_round_trip(join_levels(levels), rest);
    lemma_split_join(levels);
}

} // verus!
