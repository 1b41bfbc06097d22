use ticket_commit_msg::patch_commit_msg::patch_commit_msg;

fn vector_of_string(v: Vec<&str>) -> Vec<String> {
    let mut result: Vec<String> = vec![];
    for item in v.iter() {
        result.push(item.to_string());
    }
    result
}

#[test]
fn ticket_number_is_undefined_expect_do_nothing() {
    let result = patch_commit_msg(&vector_of_string(vec!["1", "2"]), &None, &None);
    let expected = vector_of_string(vec!["1", "2"]);
    assert_eq!(&expected, &result);
}

#[test]
fn empty_prefix_expect_append() {
    let result = patch_commit_msg(
        &vector_of_string(vec!["1", "2"]),
        &Some("ISSUE-123".to_string()),
        &None,
    );
    let expected = vector_of_string(vec!["1", "2", "", "ISSUE-123"]);
    assert_eq!(&expected, &result);
}

#[test]
fn non_empty_prefix_expect_append() {
    let result = patch_commit_msg(
        &vector_of_string(vec!["1", "2"]),
        &Some("ISSUE-123".to_string()),
        &Some("PREFIX: ".to_string()),
    );
    let expected = vector_of_string(vec!["1", "2", "", "PREFIX: ISSUE-123"]);
    assert_eq!(&expected, &result);
}

#[test]
fn ticket_number_inside_the_text_expect_append() {
    let result = patch_commit_msg(
        &vector_of_string(vec!["1", "blablabla ISSUE-123 blablabla"]),
        &Some("ISSUE-123".to_string()),
        &None,
    );
    let expected = vector_of_string(vec![
        "1",
        "blablabla ISSUE-123 blablabla",
        "",
        "ISSUE-123",
    ]);
    assert_eq!(&expected, &result);
}

#[test]
fn ticket_number_is_found_along_with_prefix_but_with_different_suffix_expect_append() {
    let result = patch_commit_msg(
        &vector_of_string(vec!["1", "Ticket ISSUE-123 unknown suffix"]),
        &Some("ISSUE-123".to_string()),
        &Some("Ticket ".to_string()),
    );
    let expected = vector_of_string(vec![
        "1",
        "Ticket ISSUE-123 unknown suffix",
        "",
        "Ticket ISSUE-123",
    ]);
    assert_eq!(&expected, &result);
}

#[test]
fn ticket_number_is_found_as_service_line_with_prefix_but_with_different_suffix_expect_insert() {
    let result = patch_commit_msg(
        &vector_of_string(vec!["1", "Ticket: ISSUE-123 unknown suffix"]),
        &Some("ISSUE-123".to_string()),
        &Some("Ticket: ".to_string()),
    );
    let expected = vector_of_string(vec![
        "1",
        "",
        "Ticket: ISSUE-123",
        "Ticket: ISSUE-123 unknown suffix",
    ]);
    assert_eq!(&expected, &result);
}

#[test]
fn ticket_number_is_found_but_with_different_prefix_and_without_suffix_expect_append() {
    let result = patch_commit_msg(
        &vector_of_string(vec!["1", "", "another prefix ISSUE-123"]),
        &Some("ISSUE-123".to_string()),
        &Some("Ticket: ".to_string()),
    );
    let expected = vector_of_string(vec![
        "1",
        "",
        "another prefix ISSUE-123",
        "",
        "Ticket: ISSUE-123",
    ]);
    assert_eq!(&expected, &result);
}

#[test]
fn ticket_number_is_found_without_prefix_expect_append() {
    let result = patch_commit_msg(
        &vector_of_string(vec!["1", "", "ISSUE-123"]),
        &Some("ISSUE-123".to_string()),
        &Some("Ticket: ".to_string()),
    );
    let expected = vector_of_string(vec!["1", "", "ISSUE-123", "", "Ticket: ISSUE-123"]);
    assert_eq!(&expected, &result);
}

#[test]
fn ticket_number_is_found_only_inside_commented_line_expect_append() {
    let result = patch_commit_msg(
        &vector_of_string(vec!["1", "# comment ISSUE-123", "# another comment line"]),
        &Some("ISSUE-123".to_string()),
        &None,
    );
    let expected = vector_of_string(vec![
        "1",
        "# comment ISSUE-123",
        "# another comment line",
        "",
        "ISSUE-123",
    ]);
    assert_eq!(&expected, &result);
}

#[test]
fn prefix_contains_eoln_expect_eoln_is_removed() {
    let result = patch_commit_msg(
        &vector_of_string(vec!["1", "2"]),
        &Some("ISSUE-123".to_string()),
        &Some("PREFIX: \r\n\r\n\r".to_string()),
    );
    let expected = vector_of_string(vec!["1", "2", "", "PREFIX: ISSUE-123"]);
    assert_eq!(&expected, &result);
}

#[test]
fn add_ticket_number_before_service_data() {
    let result = patch_commit_msg(
        &vector_of_string(vec!["1", "Change-Id: 111222", "Another-Service_Info: 333444"]),
        &Some("ISSUE-123".to_string()),
        &None,
    );
    let expected = vector_of_string(vec![
        "1",
        "",
        "ISSUE-123",
        "Change-Id: 111222",
        "Another-Service_Info: 333444",
    ]);
    assert_eq!(&expected, &result);
}

#[test]
fn ignore_trailing_empty_lines_after_service_lines() {
    let result = patch_commit_msg(
        &vector_of_string(vec![
            "1",
            "Change-Id: 111222",
            "# tmp line",
            "",
            "Change-Id: 333444",
            "",
            "",
            "# large",
            "# commented",
            "# block",
        ]),
        &Some("ISSUE-123".to_string()),
        &None,
    );

    let expected = vector_of_string(vec![
        "1",
        "Change-Id: 111222",
        "# tmp line",
        "",
        "ISSUE-123",
        "Change-Id: 333444",
        "",
        "",
        "# large",
        "# commented",
        "# block",
    ]);
    assert_eq!(&expected, &result);
}

#[test]
fn patch_only_the_last_block_of_service_lines() {
    let result = patch_commit_msg(
        &vector_of_string(vec![
            "1",
            "ISSUE-123",
            "Change-Id: 111222",
            "",
            "Another-Service_Info: 333444",
        ]),
        &Some("ISSUE-123".to_string()),
        &None,
    );
    let expected = vector_of_string(vec![
        "1",
        "ISSUE-123",
        "Change-Id: 111222",
        "",
        "ISSUE-123",
        "Another-Service_Info: 333444",
    ]);
    assert_eq!(&expected, &result);
}

#[test]
fn last_service_block_contains_ticket_number_expect_do_nothing() {
    let result = patch_commit_msg(
        &vector_of_string(vec![
            "1",
            "ISSUE-123",
            "Change-Id: 111222",
            "",
            "ISSUE-124",
            "Another-Service_Info: 333444",
        ]),
        &Some("ISSUE-123".to_string()),
        &None,
    );
    let expected = vector_of_string(vec![
        "1",
        "ISSUE-123",
        "Change-Id: 111222",
        "",
        "ISSUE-123",
        "ISSUE-124",
        "Another-Service_Info: 333444",
    ]);
    assert_eq!(&expected, &result);
}
