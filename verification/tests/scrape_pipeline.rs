use recipe_scraper::document::ParsedDocument;
use recipe_scraper::draft::RecipeDraft;
use recipe_scraper::scraping::{
    complete_scrape, decode_outcome, decode_url, extract_draft, page_of_reply, plan_fetch,
    scrape_recipe_content, FetchFailure, FetchReply, FetchRequest, ScrapeError, FETCH_TIMEOUT_SECS,
};

const FULL_PAGE: &str = r#"<!DOCTYPE html>
<html>
<head>
  <meta property="og:title" content="Hunter's Stew">
  <meta property="og:description" content="A stew for cold days">
  <meta property="og:image" content="https://example.org/stew.jpg">
  <meta property="og:image:height" content="480">
  <meta property="og:image:width" content="640">
</head>
<body>
  <div class="recipe">
    <div class="times"><span>Prep Time:</span><span><b>20 mins</b></span><span>Cook time</span><span>2 hours</span><span>Total Time</span><span><span>2 hours</span> <span>20 mins</span></span></div>
    <div class="ingredients-list">
      <h2>Ingredients</h2>
      <ul>
        <li>1 kg sauerkraut</li>
        <li><b>500 g</b> pork shoulder</li>
        <li>2 bay leaves</li>
      </ul>
    </div>
    <div class="instructions">
      <ol>
        <li>Brown the meat.</li>
        <li>Simmer with the sauerkraut
for two hours.</li>
      </ol>
    </div>
  </div>
</body>
</html>"#;

#[test]
fn metadata_only_page() {
    let draft = scrape_recipe_content(
        "<html><head><meta property=\"og:title\" content=\"Bean Soup\"></head><body><p>Soon.</p></body></html>",
    );
    assert_eq!(draft.title, Some("Bean Soup".to_string()));
    assert!(draft.ingredients.is_empty());
    assert!(draft.steps.is_empty());
    assert_eq!(
        draft,
        RecipeDraft { title: Some("Bean Soup".to_string()), ..RecipeDraft::empty() }
    );
}

#[test]
fn full_page() {
    let draft = scrape_recipe_content(FULL_PAGE);
    assert_eq!(draft.title, Some("Hunter's Stew".to_string()));
    assert_eq!(draft.ingredients.len(), 3);
    assert_eq!(draft.steps.len(), 2);
    assert_eq!(
        draft,
        RecipeDraft {
            title: Some("Hunter's Stew".to_string()),
            header: Some("A stew for cold days".to_string()),
            image_url: Some("https://example.org/stew.jpg".to_string()),
            image_height: Some("480".to_string()),
            image_width: Some("640".to_string()),
            ingredients: vec![
                "1 kg sauerkraut".to_string(),
                "500 g pork shoulder".to_string(),
                "2 bay leaves".to_string(),
            ],
            steps: vec![
                "Brown the meat.".to_string(),
                "Simmer with the sauerkrautfor two hours.".to_string(),
            ],
            prep_time: Some("20 mins".to_string()),
            cook_time: Some("2 hours".to_string()),
            total_time: Some("2 hours  20 mins".to_string()),
            tags: vec![],
        }
    );
}

#[test]
fn two_ingredient_containers_give_only_the_second_list() {
    let draft = scrape_recipe_content(
        "<div class=\"ingredients\"><ul><li>flour</li><li>water</li></ul></div>\
         <div class=\"ingredients\"><ul><li>salt</li></ul></div>",
    );
    assert_eq!(draft.ingredients, vec!["salt"]);
}

#[test]
fn repeated_timing_fragments_across_nested_spans() {
    let draft = scrape_recipe_content(
        "<div><span>Total Time</span><span><span>2 hours</span><span><span>2 hours</span></span><b>2 hours</b></span></div>",
    );
    assert_eq!(draft.total_time, Some("2 hours".to_string()));
}

#[test]
fn markup_inside_a_list_item_does_not_reach_the_entry() {
    let draft = scrape_recipe_content(
        "<div class=\"ingredient\"><ul><li><b>Salt</b> to taste</li><li>&lt;b&gt;Pepper&lt;/b&gt; too</li></ul></div>",
    );
    assert_eq!(draft.ingredients, vec!["Salt to taste", "Pepper too"]);
}

#[test]
fn a_page_without_anything_gives_the_empty_draft() {
    assert_eq!(scrape_recipe_content(""), RecipeDraft::empty());
    assert_eq!(scrape_recipe_content("<<<>>> &&& </div>"), RecipeDraft::empty());
    assert_eq!(scrape_recipe_content("<ul><li>not in a container</li></ul>"), RecipeDraft::empty());
}

#[test]
fn scraping_twice_gives_the_same_draft() {
    let first = scrape_recipe_content(FULL_PAGE);
    let second = scrape_recipe_content(FULL_PAGE);
    assert_eq!(first, second);
    let doc = ParsedDocument::parse(FULL_PAGE);
    assert_eq!(extract_draft(&doc), extract_draft(&doc));
    assert_eq!(extract_draft(&doc), first);
}

#[test]
fn decode_url_decodes_percent_sequences() {
    assert_eq!(
        decode_url("https%3A%2F%2Fexample.org%2Fstew%20recipe"),
        Ok("https://example.org/stew recipe".to_string())
    );
    assert_eq!(decode_url("caf%C3%A9"), Ok("caf\u{e9}".to_string()));
}

#[test]
fn decode_url_leaves_plain_text_as_it_is() {
    assert_eq!(decode_url("https://example.org/a+b"), Ok("https://example.org/a+b".to_string()));
    assert_eq!(decode_url(""), Ok(String::new()));
}

#[test]
fn decode_url_fails_on_bytes_that_are_no_text() {
    assert_eq!(decode_url("%FF"), Err(ScrapeError::Decode));
    assert_eq!(decode_url("ok%C3"), Err(ScrapeError::Decode));
}

#[test]
fn decode_outcome_maps_the_error() {
    assert_eq!(decode_outcome(Ok("x".to_string())), Ok("x".to_string()));
    let failure = String::from_utf8(vec![0xff]).unwrap_err();
    assert_eq!(decode_outcome(Err(failure)), Err(ScrapeError::Decode));
}

#[test]
fn plan_fetch_asks_for_the_decoded_address_with_a_time_limit() {
    assert_eq!(
        plan_fetch("https%3A%2F%2Fexample.org"),
        Ok(FetchRequest { url: "https://example.org".to_string(), timeout_secs: FETCH_TIMEOUT_SECS })
    );
    assert!(FETCH_TIMEOUT_SECS > 0);
    assert_eq!(plan_fetch("%80"), Err(ScrapeError::Decode));
}

#[test]
fn unreachable_url() {
    assert_eq!(
        complete_scrape(FetchReply::TimedOut),
        Err(ScrapeError::Fetch(FetchFailure::Timeout))
    );
}

#[test]
fn a_failed_fetch_fails_the_scrape() {
    assert_eq!(
        complete_scrape(FetchReply::NetworkError),
        Err(ScrapeError::Fetch(FetchFailure::Network))
    );
    for status in [0u16, 100, 199, 300, 301, 404, 500, 999] {
        let reply = FetchReply::Response { status, body: FULL_PAGE.to_string() };
        assert_eq!(complete_scrape(reply), Err(ScrapeError::Fetch(FetchFailure::Status(status))));
    }
}

#[test]
fn a_successful_fetch_gives_the_draft_of_the_page() {
    for status in [200u16, 204, 299] {
        let reply = FetchReply::Response { status, body: FULL_PAGE.to_string() };
        assert_eq!(complete_scrape(reply), Ok(scrape_recipe_content(FULL_PAGE)));
    }
}

#[test]
fn page_of_reply_tells_pages_from_failures() {
    assert_eq!(
        page_of_reply(FetchReply::Response { status: 200, body: "b".to_string() }),
        Ok("b".to_string())
    );
    assert_eq!(
        page_of_reply(FetchReply::Response { status: 503, body: "b".to_string() }),
        Err(FetchFailure::Status(503))
    );
    assert_eq!(page_of_reply(FetchReply::NetworkError), Err(FetchFailure::Network));
    assert_eq!(page_of_reply(FetchReply::TimedOut), Err(FetchFailure::Timeout));
}

#[test]
fn errors_have_one_message_per_kind() {
    assert_eq!(ScrapeError::Decode.message(), "invalid url encoding");
    assert_eq!(ScrapeError::Fetch(FetchFailure::Timeout).message(), "could not retrieve page");
    assert_eq!(ScrapeError::Fetch(FetchFailure::Status(404)).message(), "could not retrieve page");
    assert_eq!(ScrapeError::Fetch(FetchFailure::Network).message(), "could not retrieve page");
    assert!(ScrapeError::Decode.is_client_error());
    assert!(!ScrapeError::Fetch(FetchFailure::Network).is_client_error());
}
