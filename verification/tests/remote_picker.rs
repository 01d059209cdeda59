use boa::remote::{footer_text, highlighted_row, list_body, pad_right, status_cell, title_cell, ListBody};

#[test]
fn unreachable_daemon_shows_the_error() {
    assert_eq!(
        list_body("http://host:8080", Some("connection refused"), true, 3),
        ListBody::Error(
            "Could not reach daemon at http://host:8080:\n\nconnection refused\n\nPress r to retry, q to quit."
                .to_string()
        )
    );
    assert_eq!(list_body("u", None, true, 0), ListBody::Loading);
    assert_eq!(list_body("u", None, true, 2), ListBody::Rows);
    assert_eq!(list_body("u", None, false, 0), ListBody::Empty);
}

#[test]
fn row_cells_are_padded_and_cut() {
    assert_eq!(title_cell("fix bug"), format!(" {:<24}  ", "fix bug"));
    assert_eq!(
        title_cell("a very long session title that overflows"),
        " a very long session tit…  "
    );
    assert_eq!(status_cell("running"), "running     ");
    assert_eq!(status_cell("a-very-long-status"), "a-very-long-status  ");
    assert_eq!(pad_right("ab", 4), "ab  ");
    assert_eq!(pad_right("héllo", 3), "héllo");
}

#[test]
fn highlight_stays_within_the_list() {
    assert_eq!(highlighted_row(5, 3), 2);
    assert_eq!(highlighted_row(1, 3), 1);
    assert_eq!(highlighted_row(0, 0), 0);
    assert_eq!(footer_text(None), " j/k=navigate · Enter=open · r=refresh · q=quit ");
    assert_eq!(
        footer_text(Some("3 sessions")),
        " 3 sessions ·  j/k=navigate · Enter=open · r=refresh · q=quit "
    );
}
