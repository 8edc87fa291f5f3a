use battery_report::report::{
    charge_label, charge_labels, fill_template, render, render_snapshot, split_elapsed, summarize,
    time_label, time_labels, title, EmptyStoreError, Summary,
};
use battery_report::store::{Sample, SampleStore};
use battery_report::timestamp::{CivilDateTime, Timestamp};

const T0: i64 = 1_646_125_500;

const TEMPLATE: &str =
    "<h1>{title}</h1><script>{chart_asset}</script><script>plot([{x}], [{y}]);</script>";

fn sample(unix_seconds: i64, charge: u8) -> Sample {
    Sample { timestamp: Timestamp::from_unix_seconds(unix_seconds).unwrap(), charge }
}

fn title_of(samples: &Vec<Sample>) -> String {
    title(&summarize(samples).unwrap())
}

fn between<'a>(document: &'a str, open: &str, close: &str) -> &'a str {
    let start = document.find(open).unwrap() + open.len();
    let end = start + document[start..].find(close).unwrap();
    &document[start..end]
}

#[test]
fn a_single_sample_spans_nothing_and_changes_nothing() {
    let summary = summarize(&vec![sample(T0, 50)]).unwrap();
    assert_eq!(summary, Summary { charge_delta: 0, hours: 0, minutes: 0 });
}

#[test]
fn rendering_a_single_sample_succeeds_with_a_one_point_chart() {
    let store = SampleStore::initialize(sample(T0, 50));
    let document = render(&store, TEMPLATE, "lib();").unwrap();
    assert_eq!(
        document,
        "<h1>0% in 0h 0m</h1><script>lib();</script>\
         <script>plot(['2022-03-01 09:05:00'], ['50%']);</script>"
    );
    assert_eq!(title_of(&store.snapshot()), "0% in 0h 0m");
    assert_eq!(time_labels(&store.snapshot()).len(), 1);
    assert_eq!(charge_labels(&store.snapshot()).len(), 1);
}

#[test]
fn minutes_are_counted_beyond_the_hours_only() {
    assert_eq!(split_elapsed(125 * 60), (2, 5));
    let samples = vec![sample(T0, 90), sample(T0 + 125 * 60, 90)];
    let heading = title_of(&samples);
    assert_eq!(heading, "0% in 2h 5m");
    assert!(heading.ends_with("2h 5m"));
    assert!(!heading.contains("125m"));
}

#[test]
fn a_discharge_gives_a_negative_change() {
    let mut store = SampleStore::initialize(sample(T0, 80));
    store.append(sample(T0 + 150 * 60, 60));
    let snapshot = store.snapshot();
    assert_eq!(
        summarize(&snapshot),
        Ok(Summary { charge_delta: -20, hours: 2, minutes: 30 })
    );
    assert_eq!(title_of(&snapshot), "-20% in 2h 30m");
    let document = render(&store, "{title}", "").unwrap();
    assert_eq!(document, "-20% in 2h 30m");
}

#[test]
fn a_charge_gives_a_positive_change() {
    let samples = vec![sample(T0, 5), sample(T0 + 60, 30), sample(T0 + 7_200, 100)];
    assert_eq!(summarize(&samples), Ok(Summary { charge_delta: 95, hours: 2, minutes: 0 }));
    assert_eq!(title_of(&samples), "95% in 2h 0m");
}

#[test]
fn the_summary_looks_at_the_first_and_the_last_sample_only() {
    let samples = vec![sample(T0, 40), sample(T0 - 999, 0), sample(T0 + 9_999, 255), sample(T0 + 61, 41)];
    assert_eq!(summarize(&samples), Ok(Summary { charge_delta: 1, hours: 0, minutes: 1 }));
}

#[test]
fn the_change_covers_the_whole_range_of_a_charge() {
    let down = vec![sample(T0, 255), sample(T0, 0)];
    let up = vec![sample(T0, 0), sample(T0, 255)];
    assert_eq!(summarize(&down).unwrap().charge_delta, -255);
    assert_eq!(summarize(&up).unwrap().charge_delta, 255);
}

#[test]
fn split_elapsed_rounds_towards_zero() {
    assert_eq!(split_elapsed(0), (0, 0));
    assert_eq!(split_elapsed(59), (0, 0));
    assert_eq!(split_elapsed(60), (0, 1));
    assert_eq!(split_elapsed(3_599), (0, 59));
    assert_eq!(split_elapsed(3_600), (1, 0));
    assert_eq!(split_elapsed(9_000), (2, 30));
    assert_eq!(split_elapsed(90_061), (25, 1));
    assert_eq!(split_elapsed(-59), (0, 0));
    assert_eq!(split_elapsed(-60), (0, -1));
    assert_eq!(split_elapsed(-7_500), (-2, -5));
    assert_eq!(split_elapsed(-3_600), (-1, 0));
}

#[test]
fn split_elapsed_agrees_with_the_time_crate() {
    for seconds in [-631_107_417_599i64, -90_061, -7_500, -61, -1, 0, 1, 61, 7_500, 90_061, 631_107_417_599] {
        let span = time::Duration::seconds(seconds);
        assert_eq!(split_elapsed(seconds), (span.whole_hours(), span.whole_minutes() % 60));
    }
}

#[test]
fn a_series_that_runs_backwards_has_a_negative_span() {
    let samples = vec![sample(T0, 60), sample(T0 - 125 * 60, 80)];
    assert_eq!(title_of(&samples), "20% in -2h -5m");
}

#[test]
fn an_empty_series_has_no_summary_and_no_report() {
    assert_eq!(summarize(&Vec::new()), Err(EmptyStoreError));
    assert_eq!(render_snapshot(&Vec::new(), TEMPLATE, "lib();"), Err(EmptyStoreError));
    assert_eq!(render_snapshot(&Vec::new(), "", ""), Err(EmptyStoreError));
}

#[test]
fn title_writes_change_hours_and_minutes() {
    assert_eq!(title(&Summary { charge_delta: -20, hours: 2, minutes: 30 }), "-20% in 2h 30m");
    assert_eq!(title(&Summary { charge_delta: 0, hours: 0, minutes: 0 }), "0% in 0h 0m");
    assert_eq!(title(&Summary { charge_delta: 7, hours: 100, minutes: 59 }), "7% in 100h 59m");
    assert_eq!(title(&Summary { charge_delta: 3, hours: -1, minutes: -2 }), "3% in -1h -2m");
}

#[test]
fn time_label_is_the_quoted_date_and_time() {
    let c = CivilDateTime { year: 2022, month: 3, day: 1, hour: 9, minute: 5, second: 0 };
    assert_eq!(time_label(&c), "'2022-03-01 09:05:00'");
    let late = CivilDateTime { year: 9999, month: 12, day: 31, hour: 23, minute: 59, second: 59 };
    assert_eq!(time_label(&late), "'9999-12-31 23:59:59'");
    let early = CivilDateTime { year: 33, month: 4, day: 3, hour: 15, minute: 0, second: 7 };
    assert_eq!(time_label(&early), "'0033-04-03 15:00:07'");
}

#[test]
fn time_label_matches_the_standard_formatting() {
    for year in [-9999i32, -44, -1, 0, 1, 476, 1970, 2022, 9999] {
        let c = CivilDateTime { year, month: 7, day: 9, hour: 1, minute: 2, second: 3 };
        let expected = format!(
            "'{:04}-{:02}-{:02} {:02}:{:02}:{:02}'",
            c.year, c.month, c.day, c.hour, c.minute, c.second
        );
        assert_eq!(time_label(&c), expected);
    }
}

#[test]
fn charge_label_is_the_quoted_percentage() {
    assert_eq!(charge_label(0), "'0%'");
    assert_eq!(charge_label(7), "'7%'");
    assert_eq!(charge_label(80), "'80%'");
    assert_eq!(charge_label(100), "'100%'");
    assert_eq!(charge_label(255), "'255%'");
}

#[test]
fn labels_follow_the_samples_one_by_one() {
    let samples = vec![sample(T0, 80), sample(T0 + 300, 79), sample(T0 + 86_400, 12)];
    assert_eq!(
        time_labels(&samples),
        vec!["'2022-03-01 09:05:00'", "'2022-03-01 09:10:00'", "'2022-03-02 09:05:00'"]
    );
    assert_eq!(charge_labels(&samples), vec!["'80%'", "'79%'", "'12%'"]);
    assert!(time_labels(&Vec::new()).is_empty());
    assert!(charge_labels(&Vec::new()).is_empty());
}

#[test]
fn both_series_have_one_entry_for_each_sample() {
    for n in [1usize, 2, 3, 10, 288] {
        let mut store = SampleStore::initialize(sample(T0, 100));
        for i in 1..n {
            store.append(sample(T0 + 300 * i as i64, 100 - (i % 100) as u8));
        }
        let snapshot = store.snapshot();
        assert_eq!(time_labels(&snapshot).len(), n);
        assert_eq!(charge_labels(&snapshot).len(), n);
        let document = render(&store, "x=[{x}] y=[{y}]", "").unwrap();
        let x = between(&document, "x=[", "]");
        let y = between(&document, "y=[", "]");
        assert_eq!(x.split(',').count(), n);
        assert_eq!(y.split(',').count(), n);
        assert_eq!(x.matches(',').count() + 1, snapshot.len());
    }
}

#[test]
fn fill_template_replaces_the_four_tokens() {
    assert_eq!(
        fill_template(TEMPLATE, "lib();", "'a','b'", "'1%','2%'", "1% in 0h 5m"),
        "<h1>1% in 0h 5m</h1><script>lib();</script><script>plot(['a','b'], ['1%','2%']);</script>"
    );
}

#[test]
fn fill_template_replaces_a_token_wherever_it_stands() {
    assert_eq!(fill_template("{x}{x}|{y}|{x}", "", "1", "2", ""), "11|2|1");
    assert_eq!(fill_template("{title}{title}", "", "", "", "t"), "tt");
}

#[test]
fn fill_template_keeps_a_template_without_tokens() {
    assert_eq!(fill_template("plain {text}", "a", "b", "c", "d"), "plain {text}");
    assert_eq!(fill_template("", "a", "b", "c", "d"), "");
}

#[test]
fn fill_template_keeps_the_chart_asset_as_it_came() {
    assert_eq!(fill_template("{chart_asset}", "f({x})", "1", "2", "t"), "f({x})");
    assert_eq!(
        fill_template("{chart_asset}{x}{y}{title}", "{x}", "1", "2", "t"),
        "{x}12t"
    );
    assert_eq!(
        fill_template("{chart_asset}|{x}", "a{y}b{title}c{chart_asset}", "1", "2", "t"),
        "a{y}b{title}c{chart_asset}|1"
    );
}

#[test]
fn fill_template_keeps_every_value_as_it_came() {
    assert_eq!(fill_template("{x}", "a", "{y}{title}", "2", "t"), "{y}{title}");
    assert_eq!(fill_template("{y}", "a", "1", "{chart_asset}", "t"), "{chart_asset}");
    assert_eq!(fill_template("{title}", "a", "1", "2", "{x}"), "{x}");
    assert_eq!(fill_template("{title}{x}", "a", "{", "2", "x}"), "x}{");
}

#[test]
fn fill_template_reads_the_template_once_from_the_left() {
    assert_eq!(fill_template("{{x}}", "a", "1", "2", "t"), "{1}");
    assert_eq!(fill_template("{x{y}}", "a", "1", "2", "t"), "{x2}");
    assert_eq!(fill_template("{chart_asset", "a", "1", "2", "t"), "{chart_asset");
    assert_eq!(fill_template("{x}{y}{title}{chart_asset}", "a", "1", "2", "t"), "12ta");
}

#[test]
fn fill_template_agrees_with_the_standard_replace_when_no_value_holds_a_token() {
    let asset = "function plot(x, y) { return [x, y]; }";
    let expected = TEMPLATE
        .replace("{chart_asset}", asset)
        .replace("{x}", "'a'")
        .replace("{y}", "'1%'")
        .replace("{title}", "0% in 0h 0m");
    assert_eq!(fill_template(TEMPLATE, asset, "'a'", "'1%'", "0% in 0h 0m"), expected);
}

#[test]
fn render_inlines_the_chart_asset_unchanged() {
    let store = SampleStore::initialize(sample(T0, 50));
    let asset = "var s = '{x}{y}{title}{chart_asset}';";
    let document = render(&store, "<script>{chart_asset}</script>{y}", asset).unwrap();
    assert_eq!(document, "<script>var s = '{x}{y}{title}{chart_asset}';</script>'50%'");
    assert!(document.contains(asset));
}

#[test]
fn render_builds_the_whole_document() {
    let mut store = SampleStore::initialize(sample(T0, 80));
    store.append(sample(T0 + 4_500, 71));
    store.append(sample(T0 + 9_000, 60));
    let document = render(&store, TEMPLATE, "lib();").unwrap();
    assert_eq!(
        document,
        "<h1>-20% in 2h 30m</h1><script>lib();</script><script>plot(\
         ['2022-03-01 09:05:00','2022-03-01 10:20:00','2022-03-01 11:35:00'], \
         ['80%','71%','60%']);</script>"
    );
    assert_eq!(render_snapshot(&store.snapshot(), TEMPLATE, "lib();"), Ok(document));
}

#[test]
fn render_is_made_anew_from_the_store_each_time() {
    let mut store = SampleStore::initialize(sample(T0, 80));
    let first = render(&store, "{y}", "").unwrap();
    store.append(sample(T0 + 300, 79));
    let second = render(&store, "{y}", "").unwrap();
    assert_eq!(first, "'80%'");
    assert_eq!(second, "'80%','79%'");
    assert_eq!(render(&store, "{y}", "").unwrap(), second);
}
