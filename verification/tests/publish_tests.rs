use amsterdam::publish::{interpret_publish_response, posts_url, PublishOutcome};

#[test]
fn posts_url_shape() {
    assert_eq!(posts_url("example.com"), "https://example.com/api/v1/posts/");
}

#[test]
fn response_with_error_field_is_rejected() {
    assert_eq!(
        interpret_publish_response("{\"error\":\"no blog\"}"),
        PublishOutcome::ApplicationError(Some(String::from("no blog")))
    );
}

#[test]
fn response_with_non_string_error_is_rejected_without_text() {
    assert_eq!(
        interpret_publish_response("{\"error\":5}"),
        PublishOutcome::ApplicationError(None)
    );
}

#[test]
fn response_without_error_field_is_accepted() {
    assert_eq!(
        interpret_publish_response("{\"id\":1,\"title\":\"Hello\"}"),
        PublishOutcome::Accepted
    );
}

#[test]
fn response_that_is_not_json_is_malformed() {
    assert_eq!(interpret_publish_response("<oops>"), PublishOutcome::MalformedResponse);
}
