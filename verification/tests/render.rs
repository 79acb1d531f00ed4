use nickmass_com::posts::Post;

fn post(date: u64, content: &str) -> Post {
    Post {
        id: 1,
        author_id: 1,
        date,
        content: content.to_string(),
        title: "t".to_string(),
        url_fragment: "f".to_string(),
        author: None,
    }
}

#[test]
fn date_in_words_on_the_sites_clock() {
    assert_eq!(post(0, "").render_date(), Some("Wednesday, December 31, 1969".to_string()));
    assert_eq!(
        post(6 * 3600 * 1000, "").render_date(),
        Some("Thursday, January 1, 1970".to_string())
    );
    assert_eq!(
        post(6 * 3600 * 1000 - 1, "").render_date(),
        Some("Wednesday, December 31, 1969".to_string())
    );
    assert_eq!(
        post(1_551_441_600_000, "").render_date(),
        Some("Friday, March 1, 2019".to_string())
    );
    assert_eq!(
        post(1_600_000_000_000, "").render_date(),
        Some("Sunday, September 13, 2020".to_string())
    );
}

#[test]
fn day_and_year_are_not_padded() {
    assert_eq!(
        post(1_580_900_000_000, "").render_date(),
        Some("Wednesday, February 5, 2020".to_string())
    );
}

#[test]
fn date_beyond_the_calendar_is_none() {
    assert_eq!(post(u64::MAX, "").render_date(), None);
    assert_eq!(post(10_000_000_000_000_000_000, "").render_date(), None);
}
