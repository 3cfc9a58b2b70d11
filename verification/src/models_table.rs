//! The texts of the models table and its status bar.

use vstd::prelude::*;
use crate::text::{decimal, push_char, push_decimal, same_text};

verus! {

/// Where a model stands on this machine.
#[derive(Debug, Clone, Copy, PartialEq, Eq, Structural)]
pub enum ModelStatus {
    /// On disk and ready.
    Downloaded,
    /// Can be downloaded.
    Available,
    /// Being downloaded, this many percent done.
    Downloading(u8),
    /// The download failed.
    Failed,
}

/// The status column of a model: a check mark, an hourglass, a chart with
/// the percentage done, or a cross.
pub open spec fn spec_status_text(status: ModelStatus) -> Seq<char> {
    match status {
        ModelStatus::Downloaded => seq!['\u{2705}'],
        ModelStatus::Available => seq!['\u{23f3}'],
        ModelStatus::Downloading(p) => seq!['\u{1f4ca}', ' '] + decimal(p as nat) + seq!['%'],
        ModelStatus::Failed => seq!['\u{274c}'],
    }
}

/// The status column of a model.
pub fn status_text(status: ModelStatus) -> (r: String)
    ensures
        r@ == spec_status_text(status),
{
    let mut r = String::new();
    match status {
        ModelStatus::Downloaded => push_char(&mut r, '\u{2705}'),
        ModelStatus::Available => push_char(&mut r, '\u{23f3}'),
        ModelStatus::Downloading(p) => {
            push_char(&mut r, '\u{1f4ca}');
            push_char(&mut r, ' ');
            push_decimal(&mut r, p as u128);
            push_char(&mut r, '%');
        },
        ModelStatus::Failed => push_char(&mut r, '\u{274c}'),
    }
    assert(r@ =~= spec_status_text(status));
    r
}

/// The active column of a model: a check mark when it is the active model,
/// empty otherwise.
pub fn active_text(active_model: &Option<String>, name: &str) -> (r: String)
    ensures
        (active_model matches Some(a) && a@ == name@) ==> r@ == seq!['\u{2713}'],
        !(active_model matches Some(a) && a@ == name@) ==> r@ == Seq::<char>::empty(),
{
    let mut r = String::new();
    match active_model {
        Some(a) => {
            if same_text(a.as_str(), name) {
                push_char(&mut r, '\u{2713}');
            }
        },
        None => {},
    }
    r
}

/// The number of downloaded models among `statuses`.
pub open spec fn count_downloaded(statuses: Seq<ModelStatus>) -> nat
    decreases statuses.len(),
{
    if statuses.len() == 0 {
        0
    } else {
        count_downloaded(statuses.drop_last()) + if statuses.last() == ModelStatus::Downloaded { 1nat } else { 0nat }
    }
}

proof fn lemma_count_bounded(statuses: Seq<ModelStatus>)
    ensures
        count_downloaded(statuses) <= statuses.len(),
    decreases statuses.len(),
{
    if statuses.len() > 0 {
        lemma_count_bounded(statuses.drop_last());
    }
}

/// The models part of the status bar: downloaded models, a slash, all
/// models, and a separator, as in `3/5 | `.
pub fn models_summary(statuses: &Vec<ModelStatus>) -> (r: String)
    ensures
        r@ == decimal(count_downloaded(statuses@)) + seq!['/'] + decimal(statuses@.len() as nat) + seq![' ', '|', ' '],
{
    let mut n: usize = 0;
    let mut i: usize = 0;
    while i < statuses.len()
        invariant
            i <= statuses@.len(),
            n == count_downloaded(statuses@.take(i as int)),
        decreases statuses@.len() - i,
    {
        proof {
            assert(statuses@.take(i + 1).drop_last() =~= statuses@.take(i as int));
            lemma_count_bounded(statuses@.take(i as int));
        }
        if statuses[i] == ModelStatus::Downloaded {
            n = n + 1;
        }
        i = i + 1;
    }
    assert(statuses@.take(statuses@.len() as int) =~= statuses@);
    let mut r = String::new();
    push_decimal(&mut r, n as u128);
    push_char(&mut r, '/');
    push_decimal(&mut r, statuses.len() as u128);
    push_char(&mut r, ' ');
    push_char(&mut r, '|');
    push_char(&mut r, ' ');
    r
}

} // verus!
