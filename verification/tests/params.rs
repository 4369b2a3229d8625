use photo_server::params::{
    Dimensions, Params, DEFAULT_HEIGHT, DEFAULT_WIDTH, MAX_SIDE, THUMBNAIL_HEIGHT, THUMBNAIL_WIDTH,
};

fn pairs(list: &[(&str, &str)]) -> Vec<(String, String)> {
    list.iter().map(|(k, v)| (k.to_string(), v.to_string())).collect()
}

#[test]
fn dimensions_default_to_800_by_600() {
    let d = Params { w: None, h: None }.get_dimensions();
    assert_eq!(d, Dimensions { w: 800, h: 600 });
    assert_eq!((DEFAULT_WIDTH, DEFAULT_HEIGHT), (800, 600));
}

#[test]
fn dimensions_are_capped_at_2048() {
    let d = Params { w: Some(3000), h: Some(10) }.get_dimensions();
    assert_eq!(d, Dimensions { w: 2048, h: 10 });
    let d = Params { w: Some(2048), h: Some(2049) }.get_dimensions();
    assert_eq!(d, Dimensions { w: 2048, h: 2048 });
    let d = Params { w: Some(u32::MAX), h: None }.get_dimensions();
    assert_eq!(d, Dimensions { w: MAX_SIDE, h: 600 });
}

#[test]
fn dimensions_of_zero_become_one() {
    let d = Params { w: Some(0), h: None }.get_dimensions();
    assert_eq!(d, Dimensions { w: 1, h: 600 });
    let d = Params { w: None, h: Some(0) }.get_dimensions();
    assert_eq!(d, Dimensions { w: 800, h: 1 });
    let d = Params { w: Some(0), h: Some(0) }.get_dimensions();
    assert_eq!(d, Dimensions { w: 1, h: 1 });
}

#[test]
fn dimensions_keep_what_is_in_range() {
    let d = Params { w: Some(1), h: Some(2048) }.get_dimensions();
    assert_eq!(d, Dimensions { w: 1, h: 2048 });
    let d = Params { w: Some(1024), h: None }.get_dimensions();
    assert_eq!(d, Dimensions { w: 1024, h: 600 });
}

#[test]
fn dimensions_stay_in_range() {
    for w in [None, Some(0), Some(1), Some(2047), Some(2048), Some(2049), Some(u32::MAX)] {
        for h in [None, Some(0), Some(5), Some(4000)] {
            let d = Params { w, h }.get_dimensions();
            assert!(1 <= d.w && d.w <= 2048 && 1 <= d.h && d.h <= 2048);
        }
    }
}

#[test]
fn thumbnail_is_128_by_96() {
    assert_eq!(Dimensions::thumbnail(), Dimensions { w: 128, h: 96 });
    assert_eq!((THUMBNAIL_WIDTH, THUMBNAIL_HEIGHT), (128, 96));
}

#[test]
fn dimensions_write_their_query() {
    assert_eq!(Dimensions { w: 800, h: 600 }.to_query(), "?w=800&h=600");
    let mut out = String::from("a.jpg.html");
    Dimensions { w: 2048, h: 1 }.push_query(&mut out);
    assert_eq!(out, "a.jpg.html?w=2048&h=1");
}

#[test]
fn params_default_is_empty() {
    assert_eq!(Params::default(), Params { w: None, h: None });
}

#[test]
fn params_from_pairs_reads_w_and_h() {
    assert_eq!(Params::from_pairs(&pairs(&[])), Params { w: None, h: None });
    assert_eq!(
        Params::from_pairs(&pairs(&[("w", "640"), ("h", "480")])),
        Params { w: Some(640), h: Some(480) }
    );
    assert_eq!(Params::from_pairs(&pairs(&[("h", " 5 ")])), Params { w: None, h: Some(5) });
    assert_eq!(
        Params::from_pairs(&pairs(&[("x", "1"), ("W", "2"), ("width", "3")])),
        Params { w: None, h: None }
    );
}

#[test]
fn params_from_pairs_takes_the_last_of_each() {
    assert_eq!(
        Params::from_pairs(&pairs(&[("w", "1"), ("w", "2")])),
        Params { w: Some(2), h: None }
    );
    assert_eq!(
        Params::from_pairs(&pairs(&[("w", "1"), ("w", "wide")])),
        Params { w: None, h: None }
    );
    assert_eq!(
        Params::from_pairs(&pairs(&[("h", "x"), ("h", "3"), ("w", "0")])),
        Params { w: Some(0), h: Some(3) }
    );
}

#[test]
fn params_unparsable_values_are_absent() {
    assert_eq!(
        Params::from_pairs(&pairs(&[("w", "abc"), ("h", "-3")])),
        Params { w: None, h: None }
    );
    assert_eq!(
        Params::from_pairs(&pairs(&[("w", ""), ("h", "99999999999")])),
        Params { w: None, h: None }
    );
}
