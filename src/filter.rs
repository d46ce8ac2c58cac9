use vstd::prelude::*;
use vstd::string::StrSliceExecFns;

use crate::track::{first_artist, text_of, Track};

verus! {

/// The attribute of a track that a filter looks at.
#[derive(Debug, Clone, Copy, PartialEq, Eq, Structural)]
pub enum FilterField {
    Title,
    Artist,
    Album,
    /// Title, first artist or album.
    Any,
}

/// Why a filter expression was rejected.
#[derive(Debug, Clone, Copy, PartialEq, Eq, Structural)]
pub enum FilterError {
    /// The part before `:` names no field.
    InvalidField,
    /// Nothing follows the `:`.
    InvalidValue,
}

/// A case-insensitive substring predicate on one attribute of a track.
///
/// `invert` marks a filter that excludes what it matches; `matches` itself
/// ignores it.
#[derive(Debug, Clone)]
pub struct Filter {
    pub field: FilterField,
    /// The substring looked for, lowercased when the filter was parsed.
    pub value: String,
    pub invert: bool,
}

/// What `str::to_lowercase` makes of a text.
pub uninterp spec fn lower_of(s: Seq<char>) -> Seq<char>;

/// Relies on `str::to_lowercase`: the lowercase form of the text, a function of
/// its characters alone.
#[verifier::external_body]
fn lowercase(s: &str) -> (r: String)
    ensures
        r@ == lower_of(s@),
{
    s.to_lowercase()
}

/// `pat` occurs in `text` as a contiguous run of characters.
pub open spec fn has_substring(text: Seq<char>, pat: Seq<char>) -> bool {
    exists|i: int| 0 <= i <= text.len() - pat.len() && #[trigger] text.subrange(i, i + pat.len()) == pat
}

/// Relies on `str::contains` with a string pattern: true exactly when `pat`
/// is a substring of `text`.
#[verifier::external_body]
fn contains_text(text: &str, pat: &str) -> (r: bool)
    ensures
        r == has_substring(text@, pat@),
{
    text.contains(pat)
}

/// The text that a single-attribute field reads from a track.
pub open spec fn attribute(t: Track, field: FilterField) -> Option<Seq<char>> {
    match field {
        FilterField::Title => text_of(t.title),
        FilterField::Artist => first_artist(t),
        FilterField::Album => text_of(t.album),
        FilterField::Any => None,
    }
}

/// A present attribute whose lowercase form holds `value`.
pub open spec fn text_matches(text: Option<Seq<char>>, value: Seq<char>) -> bool {
    match text {
        Some(x) => has_substring(lower_of(x), value),
        None => false,
    }
}

/// Whether a filter on `field` looking for `value` matches the track.
pub open spec fn field_matches(field: FilterField, value: Seq<char>, t: Track) -> bool {
    match field {
        FilterField::Any => text_matches(attribute(t, FilterField::Title), value)
            || text_matches(attribute(t, FilterField::Artist), value)
            || text_matches(attribute(t, FilterField::Album), value),
        _ => text_matches(attribute(t, field), value),
    }
}

/// The field a name stands for.
pub open spec fn field_named(name: Seq<char>) -> Option<FilterField> {
    if name == seq!['t', 'i', 't', 'l', 'e'] {
        Some(FilterField::Title)
    } else if name == seq!['a', 'r', 't', 'i', 's', 't'] {
        Some(FilterField::Artist)
    } else if name == seq!['a', 'l', 'b', 'u', 'm'] {
        Some(FilterField::Album)
    } else if name == seq!['a', 'n', 'y'] {
        Some(FilterField::Any)
    } else {
        None
    }
}

pub open spec fn has_colon(s: Seq<char>) -> bool {
    exists|k: int| 0 <= k < s.len() && s[k] == ':'
}

pub open spec fn is_first_colon(s: Seq<char>, k: int) -> bool {
    &&& 0 <= k < s.len()
    &&& s[k] == ':'
    &&& forall|j: int| 0 <= j < k ==> s[j] != ':'
}

/// Position of the first `:` of a text that has one.
pub open spec fn first_colon(s: Seq<char>) -> int {
    choose|k: int| is_first_colon(s, k)
}

/// The text starts with the negation marker `!`.
pub open spec fn negated(s: Seq<char>) -> bool {
    s.len() > 0 && s[0] == '!'
}

pub open spec fn strip_negation(s: Seq<char>) -> Seq<char> {
    if negated(s) {
        s.drop_first()
    } else {
        s
    }
}

/// The substring of an expression, before lowercasing.
pub open spec fn raw_value(s: Seq<char>) -> Seq<char> {
    if has_colon(s) {
        s.skip(first_colon(s) + 1)
    } else {
        strip_negation(s)
    }
}

/// The field of an expression, or why it has none.
pub open spec fn parsed_field(s: Seq<char>) -> Result<FilterField, FilterError> {
    if !has_colon(s) {
        Ok(FilterField::Any)
    } else if raw_value(s).len() == 0 {
        Err(FilterError::InvalidValue)
    } else {
        match field_named(strip_negation(s.take(first_colon(s)))) {
            Some(f) => Ok(f),
            None => Err(FilterError::InvalidField),
        }
    }
}

/// The two texts hold the same characters.
fn same_text(a: &str, b: &str) -> (r: bool)
    ensures
        r == (a@ == b@),
{
    let n = a.unicode_len();
    if n != b.unicode_len() {
        return false;
    }
    let mut i: usize = 0;
    while i < n
        invariant
            n == a@.len(),
            n == b@.len(),
            0 <= i <= n,
            forall|j: int| 0 <= j < i ==> a@[j] == b@[j],
        decreases n - i,
    {
        if a.get_char(i) != b.get_char(i) {
            return false;
        }
        i = i + 1;
    }
    assert(a@ =~= b@);
    true
}

impl FilterField {
    /// The field a name stands for: `title`, `artist`, `album` or `any`.
    pub fn parse_name(name: &str) -> (r: Result<FilterField, FilterError>)
        ensures
            r == (match field_named(name@) {
                Some(f) => Ok(f),
                None => Err(FilterError::InvalidField),
            }),
    {
        proof {
            reveal_strlit("title");
            reveal_strlit("artist");
            reveal_strlit("album");
            reveal_strlit("any");
        }
        assert("title"@ =~= seq!['t', 'i', 't', 'l', 'e']);
        assert("artist"@ =~= seq!['a', 'r', 't', 'i', 's', 't']);
        assert("album"@ =~= seq!['a', 'l', 'b', 'u', 'm']);
        assert("any"@ =~= seq!['a', 'n', 'y']);
        if same_text(name, "title") {
            Ok(FilterField::Title)
        } else if same_text(name, "artist") {
            Ok(FilterField::Artist)
        } else if same_text(name, "album") {
            Ok(FilterField::Album)
        } else if same_text(name, "any") {
            Ok(FilterField::Any)
        } else {
            Err(FilterError::InvalidField)
        }
    }
}

impl std::str::FromStr for FilterField {
    type Err = FilterError;

    fn from_str(s: &str) -> (r: Result<FilterField, FilterError>)
        ensures
            r == (match field_named(s@) {
                Some(f) => Ok(f),
                None => Err(FilterError::InvalidField),
            }),
    {
        FilterField::parse_name(s)
    }
}

impl Filter {
    /// The filter that an expression stands for: a field, a value and an optional
    /// leading `!`.
    ///
    /// Without a `:` the whole text, less one leading `!`, is looked for in any
    /// field. Otherwise the text is split at the first `:` into a field name,
    /// less one leading `!`, and the value. The value is stored lowercase.
    pub fn parse(s: &str) -> (r: Result<Filter, FilterError>)
        ensures
            r is Ok <==> parsed_field(s@) is Ok,
            r is Ok ==> r->Ok_0.field == parsed_field(s@)->Ok_0
                && r->Ok_0.value@ == lower_of(raw_value(s@))
                && r->Ok_0.invert == negated(s@),
            r is Err ==> r->Err_0 == parsed_field(s@)->Err_0,
    {
        let n = s.unicode_len();
        let mut k: usize = 0;
        while k < n && s.get_char(k) != ':'
            invariant
                n == s@.len(),
                0 <= k <= n,
                forall|j: int| 0 <= j < k ==> s@[j] != ':',
            decreases n - k,
        {
            k = k + 1;
        }
        let invert = n > 0 && s.get_char(0) == '!';
        if k == n {
            assert(!has_colon(s@));
            let raw = if invert {
                s.substring_char(1, n)
            } else {
                s.substring_char(0, n)
            };
            assert(raw@ =~= raw_value(s@));
            return Ok(Filter { field: FilterField::Any, value: lowercase(raw), invert });
        }
        assert(is_first_colon(s@, k as int));
        assert(first_colon(s@) == k) by {
            let c = first_colon(s@);
            if c < k {
                assert(s@[c] != ':');
            } else if c > k {
                assert(s@[k as int] != ':');
            }
        }
        let raw = s.substring_char(k + 1, n);
        assert(raw@ =~= raw_value(s@));
        if k + 1 == n {
            return Err(FilterError::InvalidValue);
        }
        let name = if invert {
            s.substring_char(1, k)
        } else {
            s.substring_char(0, k)
        };
        assert(name@ =~= strip_negation(s@.take(k as int)));
        let field = match FilterField::parse_name(name) {
            Ok(f) => f,
            Err(e) => {
                return Err(e);
            },
        };
        Ok(Filter { field, value: lowercase(raw), invert })
    }

    /// Whether the filter excludes the tracks it matches.
    pub fn is_inverted(&self) -> (r: bool)
        ensures
            r == self.invert,
    {
        self.invert
    }

    /// Whether the filter's value occurs in `lowered`, the lowercase form of an
    /// attribute.
    pub fn value_found_in(&self, lowered: &str) -> (r: bool)
        ensures
            r == has_substring(lowered@, self.value@),
    {
        contains_text(lowered, self.value.as_str())
    }

    /// Matching on one of the single-attribute fields.
    fn matches_attribute(&self, track: &Track) -> (r: bool)
        requires
            self.field != FilterField::Any,
        ensures
            r == text_matches(attribute(*track, self.field), self.value@),
    {
        let text: Option<&String> = match self.field {
            FilterField::Title => track.title.as_ref(),
            FilterField::Artist => if track.artists.len() > 0 {
                Some(&track.artists[0])
            } else {
                None
            },
            FilterField::Album => track.album.as_ref(),
            FilterField::Any => None,
        };
        match text {
            Some(t) => self.value_found_in(lowercase(t.as_str()).as_str()),
            None => false,
        }
    }

    /// Whether the track's attribute holds the filter's value, ignoring case.
    /// A missing attribute never matches; `Any` matches when the title, the
    /// first artist or the album does. The polarity `invert` plays no part.
    pub fn matches(&self, track: &Track) -> (r: bool)
        ensures
            r == field_matches(self.field, self.value@, *track),
    {
        match self.field {
            FilterField::Any => {
                self.as_field(FilterField::Title).matches_attribute(track)
                    || self.as_field(FilterField::Artist).matches_attribute(track)
                    || self.as_field(FilterField::Album).matches_attribute(track)
            },
            _ => self.matches_attribute(track),
        }
    }

    /// The same value and polarity, on another field.
    pub fn as_field(&self, field: FilterField) -> (r: Filter)
        ensures
            r.field == field,
            r.value == self.value,
            r.invert == self.invert,
    {
        Filter { field, value: self.value.clone(), invert: self.invert }
    }
}

/// The filters of one polarity, in their order.
pub open spec fn with_polarity(filters: Seq<Filter>, invert: bool) -> Seq<Filter> {
    filters.filter(|f: Filter| f.invert == invert)
}

/// Splits parsed filters into the exclusion filters (inverted) and the inclusion
/// filters, each in the order given.
pub fn partition_filters(filters: &Vec<Filter>) -> (r: (Vec<Filter>, Vec<Filter>))
    ensures
        r.0@ == with_polarity(filters@, true),
        r.1@ == with_polarity(filters@, false),
{
    let mut inverted: Vec<Filter> = Vec::new();
    let mut plain: Vec<Filter> = Vec::new();
    let mut i: usize = 0;
    while i < filters.len()
        invariant
            0 <= i <= filters@.len(),
            inverted@ == with_polarity(filters@.take(i as int), true),
            plain@ == with_polarity(filters@.take(i as int), false),
        decreases filters@.len() - i,
    {
        let f = &filters[i];
        let copy = f.as_field(f.field);
        assert(copy == filters@[i as int]);
        proof {
            let next = filters@.take(i + 1);
            assert(next.drop_last() =~= filters@.take(i as int));
            assert(next.last() == filters@[i as int]);
            reveal(Seq::filter);
        }
        if f.is_inverted() {
            inverted.push(copy);
        } else {
            plain.push(copy);
        }
        i = i + 1;
    }
    assert(filters@.take(filters@.len() as int) =~= filters@);
    (inverted, plain)
}

/// A parsed expression matches a track exactly when the named attribute (the
/// title, the first artist, the album, or any of the three when no field is
/// named) is present and its lowercase form holds the lowercased value. A
/// leading `!` sets the polarity and leaves the field and value alone.
pub proof fn lemma_parse_then_match(text: Seq<char>, t: Track)
    requires
        parsed_field(text) is Ok,
    ensures
        ({
            let field = parsed_field(text)->Ok_0;
            let v = lower_of(raw_value(text));
            let title = t.title is Some && has_substring(lower_of(t.title->Some_0@), v);
            let artist = t.artists@.len() > 0 && has_substring(lower_of(t.artists@[0]@), v);
            let album = t.album is Some && has_substring(lower_of(t.album->Some_0@), v);
            &&& !has_colon(text) ==> field == FilterField::Any && raw_value(text) == strip_negation(text)
            &&& has_colon(text) ==> Some(field) == field_named(
                strip_negation(text.take(first_colon(text))),
            ) && raw_value(text) == text.skip(first_colon(text) + 1)
            &&& field == FilterField::Title ==> (field_matches(field, v, t) <==> title)
            &&& field == FilterField::Artist ==> (field_matches(field, v, t) <==> artist)
            &&& field == FilterField::Album ==> (field_matches(field, v, t) <==> album)
            &&& field == FilterField::Any ==> (field_matches(field, v, t) <==> title || artist
                || album)
        }),
{
}

impl std::str::FromStr for Filter {
    type Err = FilterError;

    fn from_str(s: &str) -> (r: Result<Filter, FilterError>)
        ensures
            r is Ok <==> parsed_field(s@) is Ok,
            r is Ok ==> r->Ok_0.field == parsed_field(s@)->Ok_0
                && r->Ok_0.value@ == lower_of(raw_value(s@))
                && r->Ok_0.invert == negated(s@),
            r is Err ==> r->Err_0 == parsed_field(s@)->Err_0,
    {
        Filter::parse(s)
    }
}

} // verus!
