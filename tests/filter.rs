use rshuffle::filter::{partition_filters, Filter, FilterError, FilterField};
use rshuffle::track::Track;

fn track(url: &str, title: Option<&str>, artists: &[&str], album: Option<&str>) -> Track {
    Track {
        url: url.to_string(),
        title: title.map(|s| s.to_string()),
        artists: artists.iter().map(|s| s.to_string()).collect(),
        album: album.map(|s| s.to_string()),
    }
}

#[test]
fn parse_plain_text_is_any_field() {
    let f = Filter::parse("Beatles").unwrap();
    assert_eq!(f.field, FilterField::Any);
    assert_eq!(f.value, "beatles");
    assert!(!f.is_inverted());
}

#[test]
fn parse_negated_plain_text() {
    let f = Filter::parse("!Live").unwrap();
    assert_eq!(f.field, FilterField::Any);
    assert_eq!(f.value, "live");
    assert!(f.is_inverted());
}

#[test]
fn parse_field_and_value() {
    let f = Filter::parse("title:Foo Bar").unwrap();
    assert_eq!(f.field, FilterField::Title);
    assert_eq!(f.value, "foo bar");
    assert!(!f.invert);
    let f = Filter::parse("!album:Greatest").unwrap();
    assert_eq!(f.field, FilterField::Album);
    assert_eq!(f.value, "greatest");
    assert!(f.invert);
    let f = Filter::parse("artist:x").unwrap();
    assert_eq!(f.field, FilterField::Artist);
    let f = Filter::parse("any:x").unwrap();
    assert_eq!(f.field, FilterField::Any);
}

#[test]
fn parse_splits_at_first_colon() {
    let f = Filter::parse("title:a:B").unwrap();
    assert_eq!(f.field, FilterField::Title);
    assert_eq!(f.value, "a:b");
}

#[test]
fn parse_unknown_field() {
    assert!(matches!(Filter::parse("genre:rock"), Err(FilterError::InvalidField)));
    assert!(matches!(Filter::parse("Title:rock"), Err(FilterError::InvalidField)));
    assert!(matches!(Filter::parse(":rock"), Err(FilterError::InvalidField)));
    assert!(matches!(Filter::parse("!!title:rock"), Err(FilterError::InvalidField)));
}

#[test]
fn parse_missing_value() {
    assert!(matches!(Filter::parse("title:"), Err(FilterError::InvalidValue)));
    assert!(matches!(Filter::parse("!artist:"), Err(FilterError::InvalidValue)));
}

#[test]
fn parse_through_from_str() {
    let f: Filter = "album:Abbey".parse().unwrap();
    assert_eq!(f.field, FilterField::Album);
    assert_eq!(f.value, "abbey");
    let field: FilterField = "artist".parse().unwrap();
    assert_eq!(field, FilterField::Artist);
    assert!(matches!("nope".parse::<FilterField>(), Err(FilterError::InvalidField)));
}

#[test]
fn title_filter_present_and_absent() {
    let f = Filter::parse("title:foo").unwrap();
    assert!(f.matches(&track("u", Some("The FOOL"), &[], None)));
    assert!(!f.matches(&track("u", Some("Bar"), &["foo"], Some("foo"))));
    assert!(!f.matches(&track("u", None, &["foo"], Some("foo"))));
}

#[test]
fn artist_filter_reads_first_artist_only() {
    let f = Filter::parse("artist:queen").unwrap();
    assert!(f.matches(&track("u", None, &["Queen", "Bowie"], None)));
    assert!(!f.matches(&track("u", None, &["Bowie", "Queen"], None)));
    assert!(!f.matches(&track("u", Some("queen"), &[], Some("queen"))));
}

#[test]
fn album_filter_present_and_absent() {
    let f = Filter::parse("album:night").unwrap();
    assert!(f.matches(&track("u", None, &[], Some("A Night at the Opera"))));
    assert!(!f.matches(&track("u", Some("night"), &["night"], None)));
}

#[test]
fn any_filter_reads_each_attribute() {
    let f = Filter::parse("moon").unwrap();
    assert!(f.matches(&track("u", Some("Blue Moon"), &[], None)));
    assert!(f.matches(&track("u", None, &["Moonlight"], None)));
    assert!(f.matches(&track("u", None, &[], Some("Dark Side of the MOON"))));
    assert!(!f.matches(&track("u", Some("Sun"), &["Star"], Some("Sky"))));
    assert!(!f.matches(&track("moon", None, &[], None)));
}

#[test]
fn polarity_does_not_change_matching() {
    let plain = Filter::parse("title:x").unwrap();
    let inverted = Filter::parse("!title:x").unwrap();
    for t in [track("u", Some("X"), &[], None), track("u", Some("y"), &[], None), track("u", None, &[], None)] {
        assert_eq!(plain.matches(&t), inverted.matches(&t));
    }
}

#[test]
fn as_field_keeps_value_and_polarity() {
    let f = Filter::parse("!abc").unwrap();
    let g = f.as_field(FilterField::Album);
    assert_eq!(g.field, FilterField::Album);
    assert_eq!(g.value, "abc");
    assert!(g.invert);
}

#[test]
fn value_found_in_lowered_text() {
    let f = Filter::parse("ABC").unwrap();
    assert!(f.value_found_in("xxabcxx"));
    assert!(!f.value_found_in("xxABCxx"));
    assert!(!f.value_found_in("ab"));
}

#[test]
fn empty_value_matches_any_present_attribute() {
    let f = Filter::parse("").unwrap();
    assert_eq!(f.field, FilterField::Any);
    assert!(f.matches(&track("u", Some(""), &[], None)));
    assert!(!f.matches(&track("u", None, &[], None)));
}

#[test]
fn partition_keeps_order() {
    let all: Vec<Filter> = ["a", "!b", "c", "!d"].iter().map(|s| Filter::parse(s).unwrap()).collect();
    let (inverted, plain) = partition_filters(&all);
    assert_eq!(inverted.iter().map(|f| f.value.clone()).collect::<Vec<_>>(), vec!["b", "d"]);
    assert_eq!(plain.iter().map(|f| f.value.clone()).collect::<Vec<_>>(), vec!["a", "c"]);
}

#[test]
fn from_str_cases() {
    let f: Filter = "!album:Greatest Hits".parse().unwrap();
    assert_eq!((f.field, f.value.as_str(), f.invert), (FilterField::Album, "greatest hits", true));
    let f: Filter = "title:Foo:Bar".parse().unwrap();
    assert_eq!((f.field, f.value.as_str(), f.invert), (FilterField::Title, "foo:bar", false));
    let f: Filter = "!!Foo".parse().unwrap();
    assert_eq!((f.field, f.value.as_str(), f.invert), (FilterField::Any, "!foo", true));
    assert!(matches!("genre:rock".parse::<Filter>(), Err(FilterError::InvalidField)));
    assert!(matches!("title:".parse::<Filter>(), Err(FilterError::InvalidValue)));
}

#[test]
fn field_names_are_exact() {
    assert_eq!("title".parse::<FilterField>().unwrap(), FilterField::Title);
    assert_eq!("album".parse::<FilterField>().unwrap(), FilterField::Album);
    assert_eq!("any".parse::<FilterField>().unwrap(), FilterField::Any);
    for bad in ["Title", "ALBUM", "titles", " any", ""] {
        assert!(matches!(bad.parse::<FilterField>(), Err(FilterError::InvalidField)));
    }
}
