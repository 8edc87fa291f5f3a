//! The report renderer: from a series of samples to the finished document.
//!
//! A report shows how long the series spans, by how much the charge changed
//! over it, and one chart point per sample. The document is a template in
//! which four tokens are replaced by these values and by the chart asset.

use vstd::prelude::*;
use crate::store::{Sample, SampleStore};
use crate::text::{
    decimal,
    decimal_digits,
    free_of,
    is_digit,
    join,
    joined,
    lemma_decimal_holds_digits,
    lemma_joined_counts_parts,
    lemma_padded_decimal_free_of,
    magnitude,
    occurrences,
    padded_decimal,
    push_chars,
    push_padded_decimal,
    push_signed_decimal,
    signed_decimal,
    views_of,
};
use crate::substitution::{
    lemma_plain_character_is_kept,
    lemma_token_gives_its_value,
    occurs,
    pairs_of,
    substitute,
    substituted,
    Substitution,
};
use crate::timestamp::{utc_civil, CivilDateTime};

verus! {

/// A report was asked of a series without samples.
#[derive(Clone, Copy, Debug, PartialEq, Eq, Structural)]
pub struct EmptyStoreError;

/// What a report says about the series as a whole.
#[derive(Clone, Copy, Debug, PartialEq, Eq, Structural)]
pub struct Summary {
    /// Charge of the last sample minus charge of the first, in percent.
    pub charge_delta: i16,
    /// Whole hours from the first sample to the last.
    pub hours: i64,
    /// Whole minutes from the first sample to the last, beyond the hours.
    pub minutes: i64,
}

/// `n` divided by a positive `d`, rounded towards zero.
pub open spec fn truncated_quotient(n: int, d: int) -> int {
    if n >= 0 {
        n / d
    } else {
        -((-n) / d)
    }
}

/// Whole hours in a span of `seconds`.
pub open spec fn elapsed_hours(seconds: int) -> int {
    truncated_quotient(seconds, 3_600)
}

/// Whole minutes in a span of `seconds` that do not make up a whole hour.
pub open spec fn elapsed_minutes(seconds: int) -> int {
    let whole = truncated_quotient(seconds, 60);
    whole - 60 * truncated_quotient(whole, 60)
}

/// The summary of a series that has at least one sample.
pub open spec fn summary_of(samples: Seq<Sample>) -> Summary {
    let seconds = samples.last().timestamp@ - samples.first().timestamp@;
    Summary {
        charge_delta: (samples.last().charge - samples.first().charge) as i16,
        hours: elapsed_hours(seconds) as i64,
        minutes: elapsed_minutes(seconds) as i64,
    }
}

/// The title of a report: the change of charge and the time it took, as in
/// `-20% in 2h 30m`.
pub open spec fn title_text(summary: Summary) -> Seq<char> {
    signed_decimal(summary.charge_delta as int) + "% in "@ + signed_decimal(summary.hours as int)
        + "h "@ + signed_decimal(summary.minutes as int) + "m"@
}

/// The tick label of an instant: date and time of day between single
/// quotes, as in `'2022-03-01 09:05:00'`.
pub open spec fn time_label_text(c: CivilDateTime) -> Seq<char> {
    "'"@ + padded_decimal(c.year as int, 4) + "-"@ + padded_decimal(c.month as int, 2) + "-"@
        + padded_decimal(c.day as int, 2) + " "@ + padded_decimal(c.hour as int, 2) + ":"@
        + padded_decimal(c.minute as int, 2) + ":"@ + padded_decimal(c.second as int, 2) + "'"@
}

/// The value label of a charge: the percentage between single quotes, as in
/// `'80%'`.
pub open spec fn charge_label_text(percent: u8) -> Seq<char> {
    "'"@ + decimal(percent as nat) + "%'"@
}

/// The tick labels of a series, one for each sample.
pub open spec fn time_labels_of(samples: Seq<Sample>) -> Seq<Seq<char>> {
    Seq::new(samples.len(), |i: int| time_label_text(utc_civil(samples[i].timestamp@)))
}

/// The value labels of a series, one for each sample.
pub open spec fn charge_labels_of(samples: Seq<Sample>) -> Seq<Seq<char>> {
    Seq::new(samples.len(), |i: int| charge_label_text(samples[i].charge))
}

/// The four tokens with their values, in the order in which they are looked
/// for.
pub open spec fn report_pairs(
    chart_asset: Seq<char>,
    x: Seq<char>,
    y: Seq<char>,
    title: Seq<char>,
) -> Seq<(Seq<char>, Seq<char>)> {
    seq![("{chart_asset}"@, chart_asset), ("{x}"@, x), ("{y}"@, y), ("{title}"@, title)]
}

/// `template` with the chart asset, both label lists and the title put in
/// place of their tokens. The template is read once from the left; what is
/// put in is kept as it is, whatever it holds.
pub open spec fn filled(
    template: Seq<char>,
    chart_asset: Seq<char>,
    x: Seq<char>,
    y: Seq<char>,
    title: Seq<char>,
) -> Seq<char> {
    substituted(template, report_pairs(chart_asset, x, y, title))
}

/// The report document of a series that has at least one sample.
pub open spec fn document_text(
    samples: Seq<Sample>,
    template: Seq<char>,
    chart_asset: Seq<char>,
) -> Seq<char> {
    filled(
        template,
        chart_asset,
        joined(time_labels_of(samples), ","@),
        joined(charge_labels_of(samples), ","@),
        title_text(summary_of(samples)),
    )
}

/// Splits a span of seconds into whole hours and the minutes beyond them.
pub fn split_elapsed(seconds: i64) -> (parts: (i64, i64))
    ensures
        parts.0 == elapsed_hours(seconds as int),
        parts.1 == elapsed_minutes(seconds as int),
{
    let size: u64 = magnitude(seconds);
    let hours: u64 = size / 3_600;
    let minutes: u64 = (size / 60) % 60;
    assert(minutes == size / 60 - 60 * ((size / 60) / 60)) by (nonlinear_arith)
        requires
            minutes == (size / 60) % 60,
    ;
    if seconds >= 0 {
        (hours as i64, minutes as i64)
    } else {
        (-(hours as i64), -(minutes as i64))
    }
}

/// Computes the summary of a series, if it has a sample.
pub fn summarize(samples: &Vec<Sample>) -> (outcome: Result<Summary, EmptyStoreError>)
    ensures
        outcome is Err <==> samples@.len() == 0,
        outcome matches Ok(summary) ==> summary == summary_of(samples@),
{
    if samples.len() == 0 {
        return Err(EmptyStoreError);
    }
    let first = samples[0];
    let last = samples[samples.len() - 1];
    let seconds = first.timestamp.seconds_until(&last.timestamp);
    let parts = split_elapsed(seconds);
    let charge_delta: i16 = last.charge as i16 - first.charge as i16;
    Ok(Summary { charge_delta, hours: parts.0, minutes: parts.1 })
}

/// Writes the title of a report.
pub fn title(summary: &Summary) -> (out: String)
    ensures
        out@ == title_text(*summary),
{
    let mut out = String::new();
    push_signed_decimal(&mut out, summary.charge_delta as i64);
    out.append("% in ");
    push_signed_decimal(&mut out, summary.hours);
    out.append("h ");
    push_signed_decimal(&mut out, summary.minutes);
    out.append("m");
    assert(out@ =~= title_text(*summary));
    out
}

/// Writes the tick label of an instant.
pub fn time_label(c: &CivilDateTime) -> (out: String)
    ensures
        out@ == time_label_text(*c),
{
    let mut out = String::new();
    out.append("'");
    push_padded_decimal(&mut out, c.year as i64, 4);
    out.append("-");
    push_padded_decimal(&mut out, c.month as i64, 2);
    out.append("-");
    push_padded_decimal(&mut out, c.day as i64, 2);
    out.append(" ");
    push_padded_decimal(&mut out, c.hour as i64, 2);
    out.append(":");
    push_padded_decimal(&mut out, c.minute as i64, 2);
    out.append(":");
    push_padded_decimal(&mut out, c.second as i64, 2);
    out.append("'");
    assert(out@ =~= time_label_text(*c));
    out
}

/// Writes the value label of a charge.
pub fn charge_label(percent: u8) -> (out: String)
    ensures
        out@ == charge_label_text(percent),
{
    let mut out = String::new();
    out.append("'");
    let digits = decimal_digits(percent as u64);
    push_chars(&mut out, &digits);
    out.append("%'");
    assert(out@ =~= charge_label_text(percent));
    out
}

/// Writes the tick labels of a series, one for each sample and in its order.
pub fn time_labels(samples: &Vec<Sample>) -> (labels: Vec<String>)
    ensures
        labels@.len() == samples@.len(),
        views_of(labels@) == time_labels_of(samples@),
{
    let mut labels: Vec<String> = Vec::new();
    let mut i: usize = 0;
    while i < samples.len()
        invariant
            i <= samples.len(),
            labels@.len() == i,
            forall|k: int|
                0 <= k < i ==> (#[trigger] labels@[k])@ == time_label_text(
                    utc_civil(samples@[k].timestamp@),
                ),
        decreases samples.len() - i,
    {
        let fields = samples[i].timestamp.civil();
        labels.push(time_label(&fields));
        i += 1;
    }
    assert(views_of(labels@) =~= time_labels_of(samples@));
    labels
}

/// Writes the value labels of a series, one for each sample and in its order.
pub fn charge_labels(samples: &Vec<Sample>) -> (labels: Vec<String>)
    ensures
        labels@.len() == samples@.len(),
        views_of(labels@) == charge_labels_of(samples@),
{
    let mut labels: Vec<String> = Vec::new();
    let mut i: usize = 0;
    while i < samples.len()
        invariant
            i <= samples.len(),
            labels@.len() == i,
            forall|k: int|
                0 <= k < i ==> (#[trigger] labels@[k])@ == charge_label_text(samples@[k].charge),
        decreases samples.len() - i,
    {
        labels.push(charge_label(samples[i].charge));
        i += 1;
    }
    assert(views_of(labels@) =~= charge_labels_of(samples@));
    labels
}

/// Puts the chart asset, the two label lists and the title in place of the
/// tokens `{chart_asset}`, `{x}`, `{y}` and `{title}` of the template.
pub fn fill_template(template: &str, chart_asset: &str, x: &str, y: &str, title: &str) -> (out:
    String)
    ensures
        out@ == filled(template@, chart_asset@, x@, y@, title@),
{
    let mut substitutions: Vec<Substitution> = Vec::new();
    substitutions.push(Substitution { token: "{chart_asset}", value: chart_asset });
    substitutions.push(Substitution { token: "{x}", value: x });
    substitutions.push(Substitution { token: "{y}", value: y });
    substitutions.push(Substitution { token: "{title}", value: title });
    assert(pairs_of(substitutions@) =~= seq![
        ("{chart_asset}"@, chart_asset@),
        ("{x}"@, x@),
        ("{y}"@, y@),
        ("{title}"@, title@),
    ]);
    substitute(template, &substitutions)
}

/// Renders the report of a snapshot. An empty snapshot has no report.
pub fn render_snapshot(snapshot: &Vec<Sample>, template: &str, chart_asset: &str) -> (outcome:
    Result<String, EmptyStoreError>)
    ensures
        outcome is Err <==> snapshot@.len() == 0,
        outcome matches Ok(document) ==> document@ == document_text(
            snapshot@,
            template@,
            chart_asset@,
        ),
{
    match summarize(snapshot) {
        Err(e) => Err(e),
        Ok(summary) => {
            let x = join(&time_labels(snapshot), ",");
            let y = join(&charge_labels(snapshot), ",");
            let heading = title(&summary);
            Ok(fill_template(template, chart_asset, x.as_str(), y.as_str(), heading.as_str()))
        },
    }
}

/// Renders the report of everything the store holds. This always succeeds,
/// since a store is never empty.
pub fn render(store: &SampleStore, template: &str, chart_asset: &str) -> (outcome: Result<
    String,
    EmptyStoreError,
>)
    ensures
        outcome matches Ok(document) && document@ == document_text(
            store@,
            template@,
            chart_asset@,
        ),
{
    let snapshot = store.snapshot();
    render_snapshot(&snapshot, template, chart_asset)
}

/// The minutes of a span never reach a whole hour, and hours and minutes
/// together are the whole minutes of the span: no minute is counted twice.
/// A span that runs forwards has no negative part.
pub proof fn lemma_minutes_stay_below_an_hour(seconds: int)
    ensures
        -60 < elapsed_minutes(seconds) < 60,
        60 * elapsed_hours(seconds) + elapsed_minutes(seconds) == truncated_quotient(seconds, 60),
        seconds >= 0 ==> 0 <= elapsed_minutes(seconds) && 0 <= elapsed_hours(seconds),
        seconds <= 0 ==> elapsed_minutes(seconds) <= 0 && elapsed_hours(seconds) <= 0,
{
    let size = if seconds >= 0 {
        seconds
    } else {
        -seconds
    };
    assert((size / 60) / 60 == size / 3_600) by (nonlinear_arith)
        requires
            size >= 0,
    ;
    assert(0 <= size / 60 - 60 * ((size / 60) / 60) < 60) by (nonlinear_arith)
        requires
            size >= 0,
    ;
    assert(size / 60 >= 0 && size / 3_600 >= 0) by (nonlinear_arith)
        requires
            size >= 0,
    ;
}

/// A series of one sample spans no time and shows no change of charge; its
/// title is `0% in 0h 0m`.
pub proof fn lemma_single_sample_summary(sample: Sample)
    ensures
        summary_of(seq![sample]) == (Summary { charge_delta: 0, hours: 0, minutes: 0 }),
        title_text(summary_of(seq![sample])) == "0% in 0h 0m"@,
{
    reveal_strlit("% in ");
    reveal_strlit("h ");
    reveal_strlit("m");
    reveal_strlit("0% in 0h 0m");
    assert(decimal(0) =~= seq!['0']);
    assert(title_text(summary_of(seq![sample])) =~= "0% in 0h 0m"@);
}

/// A report has one tick label and one value label for each sample.
pub proof fn lemma_one_label_per_sample(samples: Seq<Sample>)
    ensures
        time_labels_of(samples).len() == samples.len(),
        charge_labels_of(samples).len() == samples.len(),
        time_labels_of(samples).len() == charge_labels_of(samples).len(),
{
}

/// The comma does not occur inside a tick label.
pub proof fn lemma_time_label_has_no_comma(c: CivilDateTime)
    ensures
        free_of(time_label_text(c), ','),
{
    reveal_strlit("'");
    reveal_strlit("-");
    reveal_strlit(" ");
    reveal_strlit(":");
    assert(!is_digit(','));
    lemma_padded_decimal_free_of(c.year as int, 4, ',');
    lemma_padded_decimal_free_of(c.month as int, 2, ',');
    lemma_padded_decimal_free_of(c.day as int, 2, ',');
    lemma_padded_decimal_free_of(c.hour as int, 2, ',');
    lemma_padded_decimal_free_of(c.minute as int, 2, ',');
    lemma_padded_decimal_free_of(c.second as int, 2, ',');
}

/// The comma does not occur inside a value label.
pub proof fn lemma_charge_label_has_no_comma(percent: u8)
    ensures
        free_of(charge_label_text(percent), ','),
{
    reveal_strlit("'");
    reveal_strlit("%'");
    assert(!is_digit(','));
    lemma_decimal_holds_digits(percent as nat);
}

/// In a report each of the two label lists holds exactly one entry for each
/// sample: its entries are set apart by commas, of which there is one less
/// than there are samples.
pub proof fn lemma_one_entry_per_sample(samples: Seq<Sample>)
    requires
        samples.len() >= 1,
    ensures
        occurrences(joined(time_labels_of(samples), ","@), ',') + 1 == samples.len(),
        occurrences(joined(charge_labels_of(samples), ","@), ',') + 1 == samples.len(),
{
    reveal_strlit(",");
    assert(","@ =~= seq![',']);
    assert forall|i: int| 0 <= i < samples.len() implies free_of(
        #[trigger] time_labels_of(samples)[i],
        ',',
    ) by {
        lemma_time_label_has_no_comma(utc_civil(samples[i].timestamp@));
    }
    assert forall|i: int| 0 <= i < samples.len() implies free_of(
        #[trigger] charge_labels_of(samples)[i],
        ',',
    ) by {
        lemma_charge_label_has_no_comma(samples[i].charge);
    }
    lemma_joined_counts_parts(time_labels_of(samples), ',');
    lemma_joined_counts_parts(charge_labels_of(samples), ',');
}

/// No two of the four tokens can stand at one place: behind the brace that
/// opens each of them they go on with different letters.
proof fn lemma_tokens_differ(rest: Seq<char>)
    ensures
        !occurs("{x}"@ + rest, 0, "{chart_asset}"@),
        !occurs("{y}"@ + rest, 0, "{chart_asset}"@),
        !occurs("{y}"@ + rest, 0, "{x}"@),
        !occurs("{title}"@ + rest, 0, "{chart_asset}"@),
        !occurs("{title}"@ + rest, 0, "{x}"@),
        !occurs("{title}"@ + rest, 0, "{y}"@),
{
    reveal_strlit("{chart_asset}");
    reveal_strlit("{x}");
    reveal_strlit("{y}");
    reveal_strlit("{title}");
    let asset = "{chart_asset}"@;
    let tx = "{x}"@;
    let ty = "{y}"@;
    let tt = "{title}"@;
    if occurs(tx + rest, 0, asset) {
        assert((tx + rest).subrange(0, asset.len() as int)[1] == asset[1]);
    }
    if occurs(ty + rest, 0, asset) {
        assert((ty + rest).subrange(0, asset.len() as int)[1] == asset[1]);
    }
    if occurs(ty + rest, 0, tx) {
        assert((ty + rest).subrange(0, tx.len() as int)[1] == tx[1]);
    }
    if occurs(tt + rest, 0, asset) {
        assert((tt + rest).subrange(0, asset.len() as int)[1] == asset[1]);
    }
    if occurs(tt + rest, 0, tx) {
        assert((tt + rest).subrange(0, tx.len() as int)[1] == tx[1]);
    }
    if occurs(tt + rest, 0, ty) {
        assert((tt + rest).subrange(0, ty.len() as int)[1] == ty[1]);
    }
}

/// A token in the template gives way to its value exactly as the value came,
/// and the rest of the template is filled on its own: nothing that was put
/// in is searched for tokens, so the chart asset stands in the document
/// unchanged whatever it holds.
pub proof fn lemma_values_are_put_in_as_they_are(
    rest: Seq<char>,
    chart_asset: Seq<char>,
    x: Seq<char>,
    y: Seq<char>,
    title: Seq<char>,
)
    ensures
        filled("{chart_asset}"@ + rest, chart_asset, x, y, title) == chart_asset + filled(
            rest,
            chart_asset,
            x,
            y,
            title,
        ),
        filled("{x}"@ + rest, chart_asset, x, y, title) == x + filled(
            rest,
            chart_asset,
            x,
            y,
            title,
        ),
        filled("{y}"@ + rest, chart_asset, x, y, title) == y + filled(
            rest,
            chart_asset,
            x,
            y,
            title,
        ),
        filled("{title}"@ + rest, chart_asset, x, y, title) == title + filled(
            rest,
            chart_asset,
            x,
            y,
            title,
        ),
{
    reveal_strlit("{chart_asset}");
    reveal_strlit("{x}");
    reveal_strlit("{y}");
    reveal_strlit("{title}");
    let pairs = report_pairs(chart_asset, x, y, title);
    lemma_tokens_differ(rest);
    lemma_token_gives_its_value(rest, pairs, 0);
    lemma_token_gives_its_value(rest, pairs, 1);
    lemma_token_gives_its_value(rest, pairs, 2);
    lemma_token_gives_its_value(rest, pairs, 3);
}

/// What in the template is no token is kept: a character other than the
/// opening brace stays where it is.
pub proof fn lemma_other_text_is_kept(
    c: char,
    rest: Seq<char>,
    chart_asset: Seq<char>,
    x: Seq<char>,
    y: Seq<char>,
    title: Seq<char>,
)
    requires
        c != '{',
    ensures
        filled(seq![c] + rest, chart_asset, x, y, title) == seq![c] + filled(
            rest,
            chart_asset,
            x,
            y,
            title,
        ),
{
    reveal_strlit("{chart_asset}");
    reveal_strlit("{x}");
    reveal_strlit("{y}");
    reveal_strlit("{title}");
    let pairs = report_pairs(chart_asset, x, y, title);
    let text = seq![c] + rest;
    assert forall|j: int| 0 <= j < pairs.len() implies !(pairs[j].0.len() > 0 && occurs(
        text,
        0,
        pairs[j].0,
    )) by {
        if occurs(text, 0, pairs[j].0) {
            assert(text.subrange(0, pairs[j].0.len() as int)[0] == pairs[j].0[0]);
        }
    }
    lemma_plain_character_is_kept(c, rest, pairs);
}

/// A template of nothing but the four tokens gives the four values one
/// after the other, each as it came, even where a value holds a token.
pub proof fn lemma_template_of_tokens_gives_the_values(
    chart_asset: Seq<char>,
    x: Seq<char>,
    y: Seq<char>,
    title: Seq<char>,
)
    ensures
        filled("{chart_asset}{x}{y}{title}"@, chart_asset, x, y, title) == chart_asset + x + y
            + title,
{
    reveal_strlit("{chart_asset}{x}{y}{title}");
    reveal_strlit("{chart_asset}");
    reveal_strlit("{x}");
    reveal_strlit("{y}");
    reveal_strlit("{title}");
    let empty = Seq::<char>::empty();
    let t3 = "{title}"@ + empty;
    let t2 = "{y}"@ + t3;
    let t1 = "{x}"@ + t2;
    assert("{chart_asset}{x}{y}{title}"@ =~= "{chart_asset}"@ + t1);
    lemma_values_are_put_in_as_they_are(t1, chart_asset, x, y, title);
    lemma_values_are_put_in_as_they_are(t2, chart_asset, x, y, title);
    lemma_values_are_put_in_as_they_are(t3, chart_asset, x, y, title);
    lemma_values_are_put_in_as_they_are(empty, chart_asset, x, y, title);
    assert(filled(empty, chart_asset, x, y, title) =~= empty);
    assert(chart_asset + (x + (y + (title + empty))) =~= chart_asset + x + y + title);
}

} // verus!
