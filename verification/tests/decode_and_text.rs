use llamaloop::api::{cmp_model_ids, select_compatible_models, Limit, ModelsDevModel};
use llamaloop::app::App;
use llamaloop::decode::LineDecoder;
use llamaloop::ui::wrap_text;

fn frames_for(chunks: &[&[u8]]) -> Vec<Vec<u8>> {
    let mut d = LineDecoder::new();
    let mut all = Vec::new();
    for c in chunks {
        all.extend(d.push_chunk(c));
    }
    all
}

#[test]
fn chunk_boundaries_do_not_change_the_frames() {
    let whole: &[u8] = b"{\"a\":1}\n\n  \n{\"b\":2}\r\npartial";
    let one = frames_for(&[whole]);
    let split = frames_for(&[b"{\"a\":1}\n\n ", b" \n{\"b\"", b":2}\r\npar", b"tial"]);
    let byte_by_byte: Vec<&[u8]> = whole.chunks(1).collect();
    let tiny = frames_for(&byte_by_byte);
    assert_eq!(one, split);
    assert_eq!(one, tiny);
    assert_eq!(one, vec![b"{\"a\":1}".to_vec(), b"{\"b\":2}".to_vec()]);
}

#[test]
fn unterminated_tail_is_held_until_its_line_feed_arrives() {
    let mut d = LineDecoder::new();
    assert!(d.push_chunk(b"{\"x\":").is_empty());
    let frames = d.push_chunk(b"1}\n");
    assert_eq!(frames, vec![b"{\"x\":1}".to_vec()]);
}

#[test]
fn wrap_text_packs_words_greedily() {
    let lines = wrap_text("the quick brown fox", 10);
    assert_eq!(lines, vec!["the quick".to_owned(), "brown fox".to_owned()]);
}

#[test]
fn wrap_text_cuts_long_words_into_column_pieces() {
    let lines = wrap_text("abcdefghij", 4);
    assert_eq!(lines, vec!["abcd".to_owned(), "efgh".to_owned(), "ij".to_owned()]);
}

#[test]
fn wrap_text_keeps_empty_paragraphs() {
    let lines = wrap_text("a\n\nb", 10);
    assert_eq!(lines, vec!["a".to_owned(), "".to_owned(), "b".to_owned()]);
}

#[test]
fn api_endpoint_table_lists_the_daemon_surface() {
    let endpoints = App::get_api_endpoints();
    assert_eq!(endpoints.len(), 11);
    assert_eq!(endpoints[0].path, "/api/tags");
    assert_eq!(endpoints[2].path, "/api/chat");
    assert_eq!(endpoints[7].method, "DELETE");
}

fn catalog_model(id: &str, open: Option<bool>) -> ModelsDevModel {
    ModelsDevModel { id: id.to_owned(), open_weights: open, limit: Some(Limit { context: 8 }) }
}

#[test]
fn catalog_selection_filters_and_cleans_ids() {
    let providers = vec![
        (
            "ollama".to_owned(),
            vec![
                catalog_model("meta/llama3.2", None),
                catalog_model("closed-thing", Some(false)),
                catalog_model("anything", Some(true)),
            ],
        ),
        ("unrelated".to_owned(), vec![catalog_model("llama-ignored", Some(true))]),
    ];
    let picked = select_compatible_models(&providers);
    let ids: Vec<&str> = picked.iter().map(|m| m.id.as_str()).collect();
    assert_eq!(ids, vec!["llama3.2", "anything"]);
}

#[test]
fn model_id_comparison_orders_lexicographically() {
    let a = catalog_model("alpha", None);
    let b = catalog_model("beta", None);
    assert_eq!(cmp_model_ids(&a, &b), core::cmp::Ordering::Less);
    assert_eq!(cmp_model_ids(&b, &a), core::cmp::Ordering::Greater);
    assert_eq!(cmp_model_ids(&a, &a), core::cmp::Ordering::Equal);
}

#[test]
fn tick_reports_when_a_refresh_is_due() {
    let mut app = App::new(1000);
    assert!(!app.on_tick(2000));
    assert!(app.on_tick(7001));
    app.mark_refreshed(7001);
    assert!(!app.on_tick(8000));
}

#[test]
fn tabs_cycle_through_the_four_screens() {
    let mut app = App::new(0);
    assert_eq!(app.selected_tab, 0);
    app.next_tab(0);
    assert_eq!(app.selected_tab, 1);
    app.previous_tab(0);
    assert_eq!(app.selected_tab, 0);
    app.previous_tab(0);
    assert_eq!(app.selected_tab, 3);
}
