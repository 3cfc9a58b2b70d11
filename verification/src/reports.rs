//! Comparison reports: the exported form of finished comparisons, their
//! aggregate statistics, CSV rows, and the training validation summary.
//!
//! Rates and averages are floating-point values; the library hands out the
//! exact counts and durations they are computed from.

use vstd::prelude::*;
use crate::clock::{rfc3339, rfc3339_text, utc_now, UtcTime};
use crate::comparison::{view_winner, ComparisonResult, ModelResult, ResultView};
use crate::keyed::{entries_map, keys_distinct, KeyedVec};
use crate::text::{clone_opt, contains_seq, contains_text, push_char, push_decimal, push_str, decimal, escape_quotes};

verus! {

/// Report metadata.
#[derive(Debug, Clone)]
pub struct ReportMetadata {
    pub generated_at: String,
    pub version: String,
    pub total_comparisons: usize,
}

/// Exported data of one model's result.
#[derive(Debug, Clone)]
pub struct ModelExport {
    pub name: String,
    pub base_model: String,
    pub lora: Option<String>,
    /// LoRA strength, as the bits of an `f32`.
    pub lora_strength: u32,
    /// Generation time in seconds, as the bits of an `f32`.
    pub generation_time_s: Option<u32>,
    pub image_path: Option<String>,
}

/// Exported data of one finished comparison.
#[derive(Debug, Clone)]
pub struct ComparisonExport {
    pub comparison_id: String,
    pub prompt: String,
    pub seed: u64,
    pub models: Vec<ModelExport>,
    pub winner: Option<String>,
    pub notes: Option<String>,
    pub completed_at: String,
}

/// Wins of one model name.
#[derive(Debug, Clone)]
pub struct ModelWinCount {
    pub model_name: String,
    pub wins: usize,
}

/// Aggregate statistics of a report: the counts that its rates are made of.
#[derive(Debug, Clone)]
pub struct StatisticsExport {
    pub total_comparisons: usize,
    /// Comparisons on which a preference index was recorded.
    pub comparisons_with_preference: usize,
    /// Wins per model name, each name once.
    pub model_wins: Vec<ModelWinCount>,
    /// Every recorded generation time, in comparison and result order, as
    /// the bits of `f32` values.
    pub generation_times_s: Vec<u32>,
}

/// A full comparison report.
#[derive(Debug, Clone)]
pub struct ComparisonReport {
    pub metadata: ReportMetadata,
    pub comparisons: Vec<ComparisonExport>,
    pub statistics: StatisticsExport,
}

/// `e` is the export of model result `r`.
pub open spec fn model_exported(e: ModelExport, r: ModelResult) -> bool {
    &&& e.name == r.model.name
    &&& e.base_model == r.model.base
    &&& e.lora == r.model.lora
    &&& e.lora_strength == r.model.lora_strength
    &&& e.generation_time_s == r.duration_s
    &&& e.image_path == r.image_path
}

/// The text a timestamp is exported as: its RFC 3339 form, or nothing if
/// chrono has none.
pub open spec fn time_text(t: UtcTime) -> Seq<char> {
    match rfc3339_text(t.secs, t.nanos) {
        Some(s) => s,
        None => Seq::empty(),
    }
}

/// `e` is the export of finished comparison `c`.
pub open spec fn comparison_exported(e: ComparisonExport, c: ResultView) -> bool {
    &&& e.comparison_id == c.comparison_id
    &&& e.prompt == c.params.prompt
    &&& e.seed == c.params.seed
    &&& e.models@.len() == c.results.len()
    &&& forall|i: int| 0 <= i < c.results.len() ==> model_exported(#[trigger] e.models@[i], c.results[i])
    &&& e.winner == (match view_winner(c) { Some(m) => Some(m.name), None => None })
    &&& e.notes == c.notes
    &&& e.completed_at@ == time_text(c.completed_at)
}

/// Number of comparisons with a recorded preference index.
pub open spec fn count_with_index(s: Seq<ResultView>) -> nat
    decreases s.len(),
{
    if s.len() == 0 {
        0
    } else {
        count_with_index(s.drop_last()) + if s.last().user_preference is Some { 1nat } else { 0nat }
    }
}

/// The recorded generation times of one comparison, in result order.
pub open spec fn result_times(r: Seq<ModelResult>) -> Seq<u32>
    decreases r.len(),
{
    if r.len() == 0 {
        Seq::empty()
    } else {
        let rest = result_times(r.drop_last());
        match r.last().duration_s {
            Some(t) => rest.push(t),
            None => rest,
        }
    }
}

/// The recorded generation times of all comparisons, in order.
pub open spec fn all_times(s: Seq<ResultView>) -> Seq<u32>
    decreases s.len(),
{
    if s.len() == 0 {
        Seq::empty()
    } else {
        all_times(s.drop_last()) + result_times(s.last().results)
    }
}

/// Export one model result.
fn export_model(r: &ModelResult) -> (e: ModelExport)
    ensures
        model_exported(e, *r),
{
    ModelExport {
        name: r.model.name.clone(),
        base_model: r.model.base.clone(),
        lora: clone_opt(&r.model.lora),
        lora_strength: r.model.lora_strength,
        generation_time_s: r.duration_s,
        image_path: clone_opt(&r.image_path),
    }
}

/// The exported text of a timestamp.
fn export_time(t: UtcTime) -> (s: String)
    ensures
        s@ == time_text(t),
{
    match rfc3339(t) {
        Some(s) => s,
        None => String::new(),
    }
}


/// Export one finished comparison.
fn export_comparison(c: &ComparisonResult) -> (e: ComparisonExport)
    ensures
        comparison_exported(e, c@),
{
    let mut models: Vec<ModelExport> = Vec::new();
    let mut i: usize = 0;
    while i < c.results.len()
        invariant
            i <= c.results@.len(),
            models@.len() == i,
            forall|j: int| 0 <= j < i ==> model_exported(#[trigger] models@[j], c.results@[j]),
        decreases c.results@.len() - i,
    {
        models.push(export_model(&c.results[i]));
        i = i + 1;
    }
    let winner = match c.winner() {
        Some(w) => Some(w.name.clone()),
        None => None,
    };
    ComparisonExport {
        comparison_id: c.comparison_id.clone(),
        prompt: c.params.prompt.clone(),
        seed: c.params.seed,
        models,
        winner,
        notes: clone_opt(&c.notes),
        completed_at: export_time(c.completed_at),
    }
}

/// Winner counting over finished comparisons (by model name).
pub open spec fn report_wins(s: Seq<ResultView>, name: Seq<char>) -> nat
    decreases s.len(),
{
    if s.len() == 0 {
        0
    } else {
        report_wins(s.drop_last(), name) + if view_winner(s.last()) matches Some(w) && w.name@ == name { 1nat } else { 0nat }
    }
}

proof fn lemma_report_counts_bounded(s: Seq<ResultView>, name: Seq<char>)
    ensures
        count_with_index(s) <= s.len(),
        report_wins(s, name) <= s.len(),
    decreases s.len(),
{
    if s.len() > 0 {
        lemma_report_counts_bounded(s.drop_last(), name);
    }
}

/// `st` holds the statistics of the finished comparisons `s`.
pub open spec fn statistics_of(st: StatisticsExport, s: Seq<ResultView>) -> bool {
    &&& st.total_comparisons == s.len()
    &&& st.comparisons_with_preference == count_with_index(s)
    &&& forall|i: int, j: int| 0 <= i < st.model_wins@.len() && 0 <= j < st.model_wins@.len() && i != j
        ==> (#[trigger] st.model_wins@[i]).model_name@ != (#[trigger] st.model_wins@[j]).model_name@
    &&& forall|i: int| 0 <= i < st.model_wins@.len() ==> (#[trigger] st.model_wins@[i]).wins
        == report_wins(s, st.model_wins@[i].model_name@) && st.model_wins@[i].wins > 0
    &&& forall|name: Seq<char>| report_wins(s, name) > 0 ==> exists|i: int| 0 <= i < st.model_wins@.len()
        && (#[trigger] st.model_wins@[i]).model_name@ == name
    &&& st.generation_times_s@ == all_times(s)
}

/// The recorded generation times of one comparison.
fn collect_times(results: &Vec<ModelResult>, out: &mut Vec<u32>)
    ensures
        final(out)@ == old(out)@ + result_times(results@),
{
    let mut i: usize = 0;
    while i < results.len()
        invariant
            i <= results@.len(),
            out@ == old(out)@ + result_times(results@.take(i as int)),
        decreases results@.len() - i,
    {
        proof {
            assert(results@.take(i + 1).drop_last() =~= results@.take(i as int));
            assert(results@.take(i + 1).last() == results@[i as int]);
        }
        match results[i].duration_s {
            Some(t) => {
                out.push(t);
            }
            None => {}
        }
        i = i + 1;
        proof {
            assert(out@ =~= old(out)@ + result_times(results@.take(i as int)));
        }
    }
    proof {
        assert(results@.take(results@.len() as int) =~= results@);
    }
}

/// Builder for comparison reports.
pub struct ReportBuilder {
    comparisons: Vec<ComparisonResult>,
}

impl ReportBuilder {
    /// The finished comparisons added so far, in order.
    pub closed spec fn view(&self) -> Seq<ResultView> {
        self.comparisons@.map_values(|c: ComparisonResult| c@)
    }

    /// A builder with no comparisons.
    pub fn new() -> (b: Self)
        ensures
            b@ == Seq::<ResultView>::empty(),
    {
        let b = ReportBuilder { comparisons: Vec::new() };
        assert(b@ =~= Seq::<ResultView>::empty());
        b
    }

    /// Add a finished comparison.
    pub fn add_comparison(&mut self, comparison: ComparisonResult)
        ensures
            final(self)@ == old(self)@.push(comparison@),
    {
        self.comparisons.push(comparison);
        assert(self@ =~= old(self)@.push(comparison@));
    }

    /// Add several finished comparisons, in order.
    pub fn add_comparisons(&mut self, comparisons: Vec<ComparisonResult>)
        ensures
            final(self)@ == old(self)@ + comparisons@.map_values(|c: ComparisonResult| c@),
    {
        let mut comparisons = comparisons;
        let ghost added = comparisons@;
        self.comparisons.append(&mut comparisons);
        assert(self@ =~= old(self)@ + added.map_values(|c: ComparisonResult| c@));
    }

    /// Aggregate statistics of the added comparisons.
    fn calculate_statistics(&self) -> (st: StatisticsExport)
        ensures
            statistics_of(st, self@),
    {
        let ghost s = self@;
        let mut with_preference: usize = 0;
        let mut wins: KeyedVec<usize> = KeyedVec::new();
        let mut times: Vec<u32> = Vec::new();
        let mut i: usize = 0;
        while i < self.comparisons.len()
            invariant
                s == self@,
                i <= s.len(),
                wins.wf(),
                with_preference == count_with_index(s.take(i as int)),
                forall|name: Seq<char>| #[trigger] wins@.contains_key(name) <==> report_wins(s.take(i as int), name) > 0,
                forall|name: Seq<char>| #[trigger] wins@.contains_key(name) ==> wins@[name] == report_wins(s.take(i as int), name),
                times@ == all_times(s.take(i as int)),
            decreases s.len() - i,
        {
            let ghost prev = wins@;
            proof {
                assert(s.take(i + 1).drop_last() =~= s.take(i as int));
                assert(s.take(i + 1).last() == s[i as int]);
                lemma_report_counts_bounded(s.take(i as int), Seq::empty());
            }
            let c = &self.comparisons[i];
            if c.user_preference.is_some() {
                with_preference = with_preference + 1;
            }
            match c.winner() {
                Some(w) => {
                    let current: usize = match wins.get(w.name.as_str()) {
                        Some(n) => *n,
                        None => 0,
                    };
                    proof {
                        lemma_report_counts_bounded(s.take(i as int), w.name@);
                    }
                    wins.insert(w.name.clone(), current + 1);
                    proof {
                        assert forall|name: Seq<char>| #[trigger] wins@.contains_key(name) <==> report_wins(s.take(i + 1), name) > 0 by {
                            if name != w.name@ {
                                assert(prev.contains_key(name) <==> report_wins(s.take(i as int), name) > 0);
                            }
                        }
                        assert forall|name: Seq<char>| #[trigger] wins@.contains_key(name) implies wins@[name] == report_wins(s.take(i + 1), name) by {
                            if name != w.name@ {
                                assert(prev.contains_key(name));
                            } else if !prev.contains_key(name) {
                                assert(report_wins(s.take(i as int), name) == 0);
                            }
                        }
                    }
                }
                None => {
                    proof {
                        assert forall|name: Seq<char>| #[trigger] wins@.contains_key(name) <==> report_wins(s.take(i + 1), name) > 0 by {
                            assert(prev.contains_key(name) <==> report_wins(s.take(i as int), name) > 0);
                        }
                    }
                }
            }
            collect_times(&c.results, &mut times);
            i = i + 1;
        }
        proof {
            assert(s.take(s.len() as int) =~= s);
        }
        let pairs = wins.pairs();
        let mut model_wins: Vec<ModelWinCount> = Vec::new();
        let mut k: usize = 0;
        while k < pairs.len()
            invariant
                keys_distinct(pairs@),
                entries_map(pairs@) == wins@,
                k <= pairs@.len(),
                model_wins@.len() == k,
                forall|j: int| 0 <= j < k ==> (#[trigger] model_wins@[j]).model_name == pairs@[j].0
                    && model_wins@[j].wins == pairs@[j].1,
            decreases pairs@.len() - k,
        {
            model_wins.push(ModelWinCount { model_name: pairs[k].0.clone(), wins: pairs[k].1 });
            k = k + 1;
        }
        let st = StatisticsExport {
            total_comparisons: self.comparisons.len(),
            comparisons_with_preference: with_preference,
            model_wins,
            generation_times_s: times,
        };
        proof {
            assert forall|a: int| 0 <= a < st.model_wins@.len() implies (#[trigger] st.model_wins@[a]).wins
                == report_wins(s, st.model_wins@[a].model_name@) && st.model_wins@[a].wins > 0 by {
                crate::keyed::lemma_entry_in_map(pairs@, a);
            }
            assert forall|name: Seq<char>| report_wins(s, name) > 0 implies exists|a: int| 0 <= a < st.model_wins@.len()
                && (#[trigger] st.model_wins@[a]).model_name@ == name by {
                assert(wins@.contains_key(name));
                let a = choose|a: int| 0 <= a < pairs@.len() && #[trigger] pairs@[a].0@ == name;
                assert(st.model_wins@[a].model_name@ == name);
            }
        }
        st
    }

    /// Build the report: one export per added comparison, in order, and the
    /// aggregate statistics. The report is stamped with the current time
    /// and version "1.0.0".
    pub fn build(&self) -> (report: ComparisonReport)
        ensures
            report.metadata.version@ == "1.0.0"@,
            report.metadata.total_comparisons == self@.len(),
            report.comparisons@.len() == self@.len(),
            forall|i: int| 0 <= i < self@.len() ==> comparison_exported(#[trigger] report.comparisons@[i], self@[i]),
            statistics_of(report.statistics, self@),
            exists|t: UtcTime| t.secs >= 0 && t.nanos < 1_000_000_000 && #[trigger] time_text(t)
                == report.metadata.generated_at@,
    {
        let mut comparisons: Vec<ComparisonExport> = Vec::new();
        let mut i: usize = 0;
        while i < self.comparisons.len()
            invariant
                i <= self@.len(),
                comparisons@.len() == i,
                forall|j: int| 0 <= j < i ==> comparison_exported(#[trigger] comparisons@[j], self@[j]),
            decreases self@.len() - i,
        {
            comparisons.push(export_comparison(&self.comparisons[i]));
            i = i + 1;
        }
        let statistics = self.calculate_statistics();
        let total = comparisons.len();
        let now = utc_now();
        ComparisonReport {
            metadata: ReportMetadata {
                generated_at: export_time(now),
                version: String::from_str("1.0.0"),
                total_comparisons: total,
            },
            comparisons,
            statistics,
        }
    }
}

impl Default for ReportBuilder {
    fn default() -> (b: Self)
        ensures
            b@ == Seq::<ResultView>::empty(),
    {
        ReportBuilder::new()
    }
}


/// Escape a value for a quoted CSV field: every double quote is doubled.
pub fn escape_csv(s: &str) -> (r: String)
    ensures
        r@ == escape_quotes(s@),
{
    let cs = crate::text::chars_of(s);
    let mut r = String::new();
    let mut i: usize = 0;
    while i < cs.len()
        invariant
            cs@ == s@,
            i <= cs@.len(),
            r@ == escape_quotes(cs@.take(i as int)),
        decreases cs@.len() - i,
    {
        proof {
            assert(cs@.take(i + 1).drop_last() =~= cs@.take(i as int));
            assert(cs@.take(i + 1).last() == cs@[i as int]);
        }
        if cs[i] == '"' {
            push_char(&mut r, '"');
            push_char(&mut r, '"');
        } else {
            push_char(&mut r, cs[i]);
        }
        i = i + 1;
    }
    proof {
        assert(cs@.take(cs@.len() as int) =~= cs@);
    }
    r
}

/// Reading a quoted CSV field's text back: each doubled quote becomes one.
pub open spec fn unescape_quotes(r: Seq<char>) -> Seq<char>
    decreases r.len(),
{
    if r.len() == 0 {
        Seq::empty()
    } else if r.len() >= 2 && r.last() == '"' && r[r.len() - 2] == '"' {
        unescape_quotes(r.subrange(0, r.len() - 2)).push('"')
    } else {
        unescape_quotes(r.drop_last()).push(r.last())
    }
}

/// The number of double quotes in a text.
pub open spec fn quote_count(s: Seq<char>) -> nat
    decreases s.len(),
{
    if s.len() == 0 {
        0
    } else {
        quote_count(s.drop_last()) + if s.last() == '"' { 1nat } else { 0nat }
    }
}

/// Escaping for CSV loses nothing: reading the escaped text back gives the
/// original, the escaped text is longer by one character per quote, and a
/// text without quotes is left as it is.
pub proof fn law_escape_csv_round_trip(s: Seq<char>)
    ensures
        unescape_quotes(escape_quotes(s)) == s,
        escape_quotes(s).len() == s.len() + quote_count(s),
        quote_count(s) == 0 ==> escape_quotes(s) == s,
    decreases s.len(),
{
    if s.len() > 0 {
        let t = s.drop_last();
        law_escape_csv_round_trip(t);
        let e = escape_quotes(t);
        if s.last() == '"' {
            let r = e.push('"').push('"');
            assert(r.subrange(0, r.len() - 2) =~= e);
        } else {
            let r = e.push(s.last());
            assert(r.drop_last() =~= e);
        }
        assert(t.push(s.last()) =~= s);
    }
}

/// The header line of the comparison CSV export.
pub const CSV_HEADER: &'static str = "comparison_id,prompt,seed,model_name,base_model,lora,lora_strength,generation_time_s,winner,notes,completed_at";

/// The header line of the statistics CSV export.
pub const STATISTICS_CSV_HEADER: &'static str = "model_name,wins,win_rate";

/// `x` in double quotes.
pub open spec fn quoted(x: Seq<char>) -> Seq<char> {
    seq!['"'] + x + seq!['"']
}

/// The text of an optional value, empty when absent.
pub open spec fn or_empty(o: Option<String>) -> Seq<char> {
    match o {
        Some(s) => s@,
        None => Seq::empty(),
    }
}

/// A text as a quoted CSV field: in double quotes, inner quotes doubled.
pub open spec fn csv_field(x: Seq<char>) -> Seq<char> {
    quoted(escape_quotes(x))
}

/// The CSV row for one model of one comparison; the two floating-point
/// columns are given as text. Every text column is a quoted field with its
/// inner quotes doubled.
pub open spec fn spec_csv_row(c: ComparisonExport, m: ModelExport, strength: Seq<char>, time: Seq<char>) -> Seq<char> {
    let winner_flag = if c.winner matches Some(w) && w@ == m.name@ { seq!['1'] } else { seq!['0'] };
    csv_field(c.comparison_id@) + seq![','] + csv_field(c.prompt@) + seq![','] + decimal(c.seed as nat)
        + seq![','] + csv_field(m.name@) + seq![','] + csv_field(m.base_model@)
        + seq![','] + csv_field(or_empty(m.lora)) + seq![','] + strength + seq![','] + time + seq![',']
        + winner_flag + seq![','] + csv_field(or_empty(c.notes)) + seq![','] + csv_field(c.completed_at@)
}

fn push_quoted(r: &mut String, x: &str)
    ensures
        final(r)@ == old(r)@ + quoted(x@),
{
    push_char(r, '"');
    push_str(r, x);
    push_char(r, '"');
    assert(final(r)@ =~= old(r)@ + quoted(x@));
}

/// The CSV row (without line end) for model `m` of comparison `c`. The LoRA
/// strength and generation time columns hold `strength_text` and
/// `time_text`, the printed forms of those numbers.
pub fn csv_row(c: &ComparisonExport, m: &ModelExport, strength_text: &str, time_text: &str) -> (r: String)
    ensures
        r@ == spec_csv_row(*c, *m, strength_text@, time_text@),
{
    let mut r = String::new();
    push_quoted(&mut r, escape_csv(c.comparison_id.as_str()).as_str());
    push_char(&mut r, ',');
    push_quoted(&mut r, escape_csv(c.prompt.as_str()).as_str());
    push_char(&mut r, ',');
    push_decimal(&mut r, c.seed as u128);
    push_char(&mut r, ',');
    push_quoted(&mut r, escape_csv(m.name.as_str()).as_str());
    push_char(&mut r, ',');
    push_quoted(&mut r, escape_csv(m.base_model.as_str()).as_str());
    push_char(&mut r, ',');
    match &m.lora {
        Some(l) => push_quoted(&mut r, escape_csv(l.as_str()).as_str()),
        None => push_quoted(&mut r, escape_csv("").as_str()),
    }
    push_char(&mut r, ',');
    push_str(&mut r, strength_text);
    push_char(&mut r, ',');
    push_str(&mut r, time_text);
    push_char(&mut r, ',');
    let is_winner = match &c.winner {
        Some(w) => *w == m.name,
        None => false,
    };
    push_char(&mut r, if is_winner { '1' } else { '0' });
    push_char(&mut r, ',');
    match &c.notes {
        Some(n) => push_quoted(&mut r, escape_csv(n.as_str()).as_str()),
        None => push_quoted(&mut r, escape_csv("").as_str()),
    }
    push_char(&mut r, ',');
    push_quoted(&mut r, escape_csv(c.completed_at.as_str()).as_str());
    proof {
        reveal_strlit("");
        assert(r@ =~= spec_csv_row(*c, *m, strength_text@, time_text@));
    }
    r
}

/// The statistics CSV row (without line end) of one model; the win rate is
/// given as text.
pub fn statistics_csv_row(w: &ModelWinCount, win_rate_text: &str) -> (r: String)
    ensures
        r@ == quoted(escape_quotes(w.model_name@)) + seq![','] + decimal(w.wins as nat) + seq![','] + win_rate_text@,
{
    let mut r = String::new();
    push_quoted(&mut r, escape_csv(w.model_name.as_str()).as_str());
    push_char(&mut r, ',');
    push_decimal(&mut r, w.wins as u128);
    push_char(&mut r, ',');
    push_str(&mut r, win_rate_text);
    assert(r@ =~= quoted(escape_quotes(w.model_name@)) + seq![','] + decimal(w.wins as nat) + seq![','] + win_rate_text@);
    r
}

/// Counts of a training validation: comparisons won by the base model,
/// won by the LoRA model, and without a winner. A winner whose name
/// contains the base model's name counts for the base model even if it also
/// contains the LoRA model's name; a winner that contains neither counts for
/// nobody.
pub open spec fn validation_counts(s: Seq<ResultView>, base: Seq<char>, lora: Seq<char>) -> (nat, nat, nat)
    decreases s.len(),
{
    if s.len() == 0 {
        (0, 0, 0)
    } else {
        let (b, l, n) = validation_counts(s.drop_last(), base, lora);
        match view_winner(s.last()) {
            Some(w) => if contains_seq(w.name@, base) {
                (b + 1, l, n)
            } else if contains_seq(w.name@, lora) {
                (b, l + 1, n)
            } else {
                (b, l, n)
            },
            None => (b, l, n + 1),
        }
    }
}

proof fn lemma_validation_bounded(s: Seq<ResultView>, base: Seq<char>, lora: Seq<char>)
    ensures
        validation_counts(s, base, lora).0 + validation_counts(s, base, lora).1
            + validation_counts(s, base, lora).2 <= s.len(),
    decreases s.len(),
{
    if s.len() > 0 {
        lemma_validation_bounded(s.drop_last(), base, lora);
    }
}

/// Adding one finished comparison to a report adds one comparison, one
/// with a preference if it has a preferred position, and one win for the
/// name of the model at that position (none if the position is past the
/// results); the wins of other names stay.
pub proof fn law_report_counts_add_comparison(s: Seq<ResultView>, c: ResultView, name: Seq<char>)
    ensures
        count_with_index(s.push(c)) == count_with_index(s) + (if c.user_preference is Some { 1int } else { 0int }),
        report_wins(s.push(c), name) == report_wins(s, name) + (match c.user_preference {
            Some(i) => if i < c.results.len() && c.results[i as int].model.name@ == name { 1int } else { 0int },
            None => 0int,
        }),
{
    assert(s.push(c).drop_last() =~= s);
    assert(s.push(c).last() == c);
}

/// Adding one finished comparison to a training validation changes the
/// counts by its winner, the model at the preferred position, whatever that
/// position is: a winner whose name contains the base model's name adds a
/// base win; otherwise one whose name contains the LoRA model's name adds a
/// LoRA win; a winner with neither name adds nothing; a comparison without
/// a (valid) preference adds one without preference.
pub proof fn law_validation_counts_by_winner_name(
    s: Seq<ResultView>,
    c: ResultView,
    base: Seq<char>,
    lora: Seq<char>,
)
    ensures
        ({
            let before = validation_counts(s, base, lora);
            let after = validation_counts(s.push(c), base, lora);
            match c.user_preference {
                Some(i) => if i < c.results.len() {
                    let name = c.results[i as int].model.name@;
                    if contains_seq(name, base) {
                        after == (before.0 + 1, before.1, before.2)
                    } else if contains_seq(name, lora) {
                        after == (before.0, before.1 + 1, before.2)
                    } else {
                        after == before
                    }
                } else {
                    after == (before.0, before.1, before.2 + 1)
                },
                None => after == (before.0, before.1, before.2 + 1),
            }
        }),
{
    assert(s.push(c).drop_last() =~= s);
    assert(s.push(c).last() == c);
}

/// The counts of a training validation report; the LoRA win rate and the
/// conclusion drawn from it are computed from these.
#[derive(Debug, Clone)]
pub struct TrainingValidationReport {
    pub base_model: String,
    pub lora_model: String,
    pub total_comparisons: usize,
    pub base_wins: usize,
    pub lora_wins: usize,
    pub no_preference: usize,
}

/// Compare a base model against a LoRA model over finished comparisons.
pub fn generate_training_validation_report(
    comparisons: &[ComparisonResult],
    base_model_name: &str,
    lora_model_name: &str,
) -> (r: TrainingValidationReport)
    ensures
        r.base_model@ == base_model_name@,
        r.lora_model@ == lora_model_name@,
        r.total_comparisons == comparisons@.len(),
        ({
            let counts = validation_counts(
                comparisons@.map_values(|c: ComparisonResult| c@),
                base_model_name@,
                lora_model_name@,
            );
            r.base_wins == counts.0 && r.lora_wins == counts.1 && r.no_preference == counts.2
        }),
{
    let ghost s = comparisons@.map_values(|c: ComparisonResult| c@);
    let ghost base = base_model_name@;
    let ghost lora = lora_model_name@;
    let mut base_wins: usize = 0;
    let mut lora_wins: usize = 0;
    let mut no_preference: usize = 0;
    let mut i: usize = 0;
    while i < comparisons.len()
        invariant
            s == comparisons@.map_values(|c: ComparisonResult| c@),
            base == base_model_name@,
            lora == lora_model_name@,
            i <= s.len(),
            (base_wins as nat, lora_wins as nat, no_preference as nat) == validation_counts(s.take(i as int), base, lora),
        decreases s.len() - i,
    {
        proof {
            assert(s.take(i + 1).drop_last() =~= s.take(i as int));
            assert(s.take(i + 1).last() == s[i as int]);
            lemma_validation_bounded(s.take(i as int), base, lora);
        }
        match comparisons[i].winner() {
            Some(w) => {
                if contains_text(w.name.as_str(), base_model_name) {
                    base_wins = base_wins + 1;
                } else if contains_text(w.name.as_str(), lora_model_name) {
                    lora_wins = lora_wins + 1;
                }
            }
            None => {
                no_preference = no_preference + 1;
            }
        }
        i = i + 1;
    }
    proof {
        assert(s.take(s.len() as int) =~= s);
    }
    TrainingValidationReport {
        base_model: String::from_str(base_model_name),
        lora_model: String::from_str(lora_model_name),
        total_comparisons: comparisons.len(),
        base_wins,
        lora_wins,
        no_preference,
    }
}

} // verus!
