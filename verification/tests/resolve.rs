use zippyst::error::Error;
use zippyst::file::File;
use zippyst::resolve;
use zippyst::schemes::{locate, Scheme};

// A page of the era whose download script sits in a plain script tag and
// is recognized by the download-button marker.
fn script_tag_era_page() -> String {
    [
        "<html><head><title>share</title></head><body>",
        "<script type=\"text/javascript\">var tracking = 1;</script>",
        "<div class=\"center\">",
        "<script type=\"text/javascript\">",
        "var a = 745060;",
        "var b = 913;",
        "document.getElementById('dlbutton').href = \"/d/CDCi2wVT/\" + (a % 51245 + a % b)+\"/My%20File.mp3\";",
        "</script>",
        "</div></body></html>",
    ]
    .join("\n")
}

// A page of the older era whose download script sits under the
// `#lrbox .right` container.
fn container_era_page() -> String {
    [
        "<html><body>",
        "<div id=\"lrbox\">",
        "<div class=\"right\">",
        "<script>",
        "var z = 392008;",
        "document.getElementById('dlbutton').href = \"/d/OldId77/\" + (z % 1000 + 3)+\"/archive.zip\";",
        "</script>",
        "</div>",
        "</div>",
        "</body></html>",
    ]
    .join("\n")
}

#[test]
fn resolves_script_tag_era_page() {
    let page = script_tag_era_page();
    let file = resolve("www3.zippyshare.com", &page).unwrap();
    assert_eq!(file.domain, "www3.zippyshare.com");
    assert_eq!(file.id, "CDCi2wVT");
    // 745060 % 51245 == 27630, 745060 % 913 == 52.
    assert_eq!(file.key, 27682);
    assert_eq!(file.encoded_name, "My%20File.mp3");
    assert_eq!(file.name, "My File.mp3");
    assert_eq!(
        file.link(),
        "https://www3.zippyshare.com/d/CDCi2wVT/27682/DOWNLOAD"
    );
    assert_eq!(
        file.link_with_encoded_name(),
        "https://www3.zippyshare.com/d/CDCi2wVT/27682/My%20File.mp3"
    );
}

#[test]
fn resolves_container_era_page() {
    let page = container_era_page();
    let file = resolve("www3.zippyshare.com", &page).unwrap();
    assert_eq!(file.id, "OldId77");
    // 392008 % 1000 == 8, plus 3.
    assert_eq!(file.key, 11);
    assert_eq!(file.encoded_name, "archive.zip");
    assert_eq!(file.name, "archive.zip");
}

#[test]
fn repeated_resolution_is_deterministic() {
    let page = script_tag_era_page();
    let first = resolve("host.example", &page).unwrap();
    let second = resolve("host.example", &page).unwrap();
    assert_eq!(first.domain, second.domain);
    assert_eq!(first.id, second.id);
    assert_eq!(first.key, second.key);
    assert_eq!(first.name, second.name);
    assert_eq!(first.encoded_name, second.encoded_name);
    assert_eq!(
        first.link_with_encoded_name(),
        second.link_with_encoded_name()
    );
}

#[test]
fn earlier_scheme_wins_when_both_match() {
    // One document that matches both anchor rules, with different ids and
    // keys under each: the earlier-listed scheme decides the result.
    let page = [
        "<html><body>",
        "<script type=\"text/javascript\">",
        "document.getElementById('dlbutton').href = \"/d/NewId999/\" + (40+2)+\"/new.bin\";",
        "</script>",
        "<div id=\"lrbox\"><div class=\"right\">",
        "<script>",
        "document.getElementById('dlbutton').href = \"/d/OldId111/\" + (50+9)+\"/old.bin\";",
        "</script>",
        "</div></div>",
        "</body></html>",
    ]
    .join("\n");
    let located = locate(&page).unwrap();
    assert_eq!(located.1, Scheme::ScriptTagMarker);
    let file = resolve("host.example", &page).unwrap();
    assert_eq!(file.id, "NewId999");
    assert_eq!(file.key, 42);
    assert_eq!(file.encoded_name, "new.bin");
}

#[test]
fn no_matching_anchor_is_script_not_found() {
    let page = "<html><body><p>nothing here</p>\
                <script type=\"text/javascript\">var unrelated = 1;</script>\
                </body></html>";
    assert_eq!(
        resolve("host.example", page).map(|f| f.key),
        Err(Error::ScriptNotFound)
    );
}

#[test]
fn unresolved_identifier_is_link_computation_failure() {
    let page = [
        "<script type=\"text/javascript\">",
        "var a = 5;",
        "document.getElementById('dlbutton').href = \"/d/SomeId/\" + (a + missing)+\"/f.bin\";",
        "</script>",
    ]
    .join("\n");
    assert_eq!(
        resolve("host.example", &page).map(|f| f.key),
        Err(Error::LinkComputationFailure)
    );
}

#[test]
fn marker_script_without_statement_is_extraction_failure() {
    let page = [
        "<script type=\"text/javascript\">",
        "var a = 5; document.getElementById('dlbutton').disabled = true;",
        "</script>",
    ]
    .join("\n");
    assert_eq!(
        resolve("host.example", &page).map(|f| f.key),
        Err(Error::LinkGeneratorExtractionFailure)
    );
}

#[test]
fn empty_filename_group_is_filename_extraction_failure() {
    let page = [
        "<script type=\"text/javascript\">",
        "document.getElementById('dlbutton').href = \"/d/SomeId/\" + (1+2)+\"/\";",
        "</script>",
    ]
    .join("\n");
    assert_eq!(
        resolve("host.example", &page).map(|f| f.key),
        Err(Error::FilenameExtractionFailure)
    );
}

#[test]
fn invalid_utf8_filename_is_rejected() {
    let page = [
        "<script type=\"text/javascript\">",
        "document.getElementById('dlbutton').href = \"/d/SomeId/\" + (1+2)+\"/%FF%FE\";",
        "</script>",
    ]
    .join("\n");
    assert_eq!(
        resolve("host.example", &page).map(|f| f.key),
        Err(Error::InvalidUtf8Filename)
    );
}

#[test]
fn division_by_zero_in_key_is_link_computation_failure() {
    let page = [
        "<script type=\"text/javascript\">",
        "document.getElementById('dlbutton').href = \"/d/SomeId/\" + (5/0)+\"/f.bin\";",
        "</script>",
    ]
    .join("\n");
    assert_eq!(
        resolve("host.example", &page).map(|f| f.key),
        Err(Error::LinkComputationFailure)
    );
}

#[test]
fn variable_failures_propagate_through_resolution() {
    let page = [
        "<script type=\"text/javascript\">",
        "var broken = ;",
        "document.getElementById('dlbutton').href = \"/d/SomeId/\" + (1+2)+\"/f.bin\";",
        "</script>",
    ]
    .join("\n");
    assert_eq!(
        resolve("host.example", &page).map(|f| f.key),
        Err(Error::VariableExtractionFailure)
    );
    let page2 = [
        "<script type=\"text/javascript\">",
        "var broken = 1/0;",
        "document.getElementById('dlbutton').href = \"/d/SomeId/\" + (1+2)+\"/f.bin\";",
        "</script>",
    ]
    .join("\n");
    assert_eq!(
        resolve("host.example", &page2).map(|f| f.key),
        Err(Error::VariableComputationFailure)
    );
}

#[test]
fn parse_takes_the_domain_from_the_url() {
    let page = script_tag_era_page();
    let file = File::parse("https://www3.zippyshare.com/v/CDCi2wVT/file.html", &page).unwrap();
    assert_eq!(file.domain, "www3.zippyshare.com");
    assert_eq!(
        file.link(),
        "https://www3.zippyshare.com/d/CDCi2wVT/27682/DOWNLOAD"
    );
}

#[test]
fn parse_rejects_a_reference_without_a_domain() {
    let page = script_tag_era_page();
    assert_eq!(
        File::parse("not a url", &page).map(|f| f.key),
        Err(Error::DomainExtractionFailure)
    );
    assert_eq!(
        File::parse("data:text/plain,abc", &page).map(|f| f.key),
        Err(Error::DomainExtractionFailure)
    );
}

#[test]
fn error_messages_are_stable() {
    assert_eq!(Error::ScriptNotFound.message(), "cannot find script tag");
    assert_eq!(
        Error::LinkComputationFailure.message(),
        "failed to compute link key"
    );
}

#[test]
fn no_fallback_after_downstream_failure() {
    // The first scheme's anchor matches but its extraction fails; the
    // container scheme would succeed, yet resolution must not retry it.
    let page = [
        "<html><body>",
        "<script type=\"text/javascript\">",
        "var a = 5; document.getElementById('dlbutton').disabled = true;",
        "</script>",
        "<div id=\"lrbox\"><div class=\"right\">",
        "<script>",
        "document.getElementById('dlbutton').href = \"/d/OldId111/\" + (50+9)+\"/old.bin\";",
        "</script>",
        "</div></div>",
        "</body></html>",
    ]
    .join("\n");
    assert_eq!(
        resolve("host.example", &page).map(|f| f.key),
        Err(Error::LinkGeneratorExtractionFailure)
    );
}
