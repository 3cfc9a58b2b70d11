//! Texts shown by the screens: shortened names, ages, status labels, the
//! gallery's thumbnail list and image placeholders.

use vstd::prelude::*;
use vstd::utf8::{decode_utf8, encode_utf8, is_char_boundary};
use vstd::string::StringSliceAdditionalSpecFns;
use crate::paths::{file_name_of, path_file_name};
use crate::state::{status_active, GalleryState, Job, JobStatus};
use crate::text::{contains_seq, contains_text, decimal, push_decimal};

verus! {

/// The UTF-8 bytes of a text.
pub open spec fn bytes_of(s: Seq<char>) -> Seq<u8> {
    encode_utf8(s)
}

/// `s` cut to its first `keep` bytes with "..." added, when it is longer
/// than `max` bytes; otherwise `s` itself.
pub open spec fn spec_shorten(s: Seq<char>, max: int, keep: int) -> Seq<char> {
    if bytes_of(s).len() > max {
        decode_utf8(bytes_of(s).subrange(0, keep)) + "..."@
    } else {
        s
    }
}

/// Whether shortening `s` cuts it at a character boundary (as slicing a
/// `str` needs).
pub open spec fn cuts_cleanly(s: Seq<char>, max: int, keep: int) -> bool {
    bytes_of(s).len() > max ==> 0 <= keep <= bytes_of(s).len() && is_char_boundary(bytes_of(s), keep)
}

/// Shorten `s` to its first `keep` bytes and "..." when it is longer than
/// `max` bytes.
pub fn shorten(s: &str, max: usize, keep: usize) -> (r: String)
    requires
        cuts_cleanly(s@, max as int, keep as int),
    ensures
        r@ == spec_shorten(s@, max as int, keep as int),
{
    let n = s.as_bytes().len();
    if n > max {
        let (head, _) = s.split_at(keep);
        let mut r = head.to_owned();
        r.append("...");
        proof {
            vstd::utf8::encode_utf8_decode_utf8(head@);
            assert(head.spec_bytes() =~= bytes_of(s@).subrange(0, keep as int));
            assert(r@ =~= head@ + "..."@);
        }
        r
    } else {
        s.to_owned()
    }
}

/// The first `n` bytes of `s` when it has at least `n`, else `s`.
pub open spec fn spec_prefix(s: Seq<char>, n: int) -> Seq<char> {
    if bytes_of(s).len() >= n {
        decode_utf8(bytes_of(s).subrange(0, n))
    } else {
        s
    }
}

/// The first `n` bytes of `s` (all of `s` if it is shorter).
pub fn byte_prefix(s: &str, n: usize) -> (r: String)
    requires
        bytes_of(s@).len() >= n ==> is_char_boundary(bytes_of(s@), n as int),
    ensures
        r@ == spec_prefix(s@, n as int),
{
    let len = s.as_bytes().len();
    if len >= n {
        let (head, _) = s.split_at(n);
        proof {
            vstd::utf8::encode_utf8_decode_utf8(head@);
            assert(head.spec_bytes() =~= bytes_of(s@).subrange(0, n as int));
        }
        head.to_owned()
    } else {
        s.to_owned()
    }
}

/// Longest prompt shown whole in the job list, in bytes.
pub const PROMPT_PREVIEW_MAX: usize = 50;

/// Bytes kept of a longer prompt.
pub const PROMPT_PREVIEW_KEEP: usize = 47;

/// Bytes of a job id shown in the job list.
pub const JOB_ID_SHOWN: usize = 8;

/// Longest error shown whole in the job list, in bytes.
pub const ERROR_PREVIEW_MAX: usize = 20;

/// Bytes kept of a longer error.
pub const ERROR_PREVIEW_KEEP: usize = 17;

/// How long ago something happened: seconds under a minute, minutes under
/// an hour, else hours, followed by " ago".
pub open spec fn spec_elapsed_text(secs: u64) -> Seq<char> {
    if secs < 60 {
        decimal(secs as nat) + "s ago"@
    } else if secs < 3600 {
        decimal((secs / 60) as nat) + "m ago"@
    } else {
        decimal((secs / 3600) as nat) + "h ago"@
    }
}

/// The age text of something `secs` seconds old.
pub fn elapsed_text(secs: u64) -> (r: String)
    ensures
        r@ == spec_elapsed_text(secs),
{
    let mut r = String::new();
    if secs < 60 {
        push_decimal(&mut r, secs as u128);
        r.append("s ago");
    } else if secs < 3600 {
        push_decimal(&mut r, (secs / 60) as u128);
        r.append("m ago");
    } else {
        push_decimal(&mut r, (secs / 3600) as u128);
        r.append("h ago");
    }
    r
}

/// The icon shown for a job status.
pub open spec fn spec_status_icon(s: JobStatus) -> Seq<char> {
    match s {
        JobStatus::Pending => "⏳"@,
        JobStatus::Queued => "📋"@,
        JobStatus::Generating { .. } => "🔄"@,
        JobStatus::Complete { .. } => "✓"@,
        JobStatus::Failed { .. } => "✗"@,
        JobStatus::Cancelled => "🚫"@,
    }
}

/// The icon of a job status.
pub fn status_icon(s: &JobStatus) -> (r: &'static str)
    ensures
        r@ == spec_status_icon(*s),
{
    match s {
        JobStatus::Pending => "⏳",
        JobStatus::Queued => "📋",
        JobStatus::Generating { .. } => "🔄",
        JobStatus::Complete { .. } => "✓",
        JobStatus::Failed { .. } => "✗",
        JobStatus::Cancelled => "🚫",
    }
}

/// The status text of a job, where it needs no number formatting: the
/// name of a waiting or cancelled job, and the shortened error of a failed
/// one. Running and complete jobs show a percentage and a duration, which
/// the caller formats (`None` here).
pub open spec fn spec_status_label(s: JobStatus) -> Option<Seq<char>> {
    match s {
        JobStatus::Pending => Some("Pending"@),
        JobStatus::Queued => Some("Queued"@),
        JobStatus::Failed { error } => Some(
            spec_shorten(error@, ERROR_PREVIEW_MAX as int, ERROR_PREVIEW_KEEP as int),
        ),
        JobStatus::Cancelled => Some("Cancelled"@),
        _ => None,
    }
}

/// The status text of a job that needs no number formatting.
pub fn status_label(s: &JobStatus) -> (r: Option<String>)
    requires
        s matches JobStatus::Failed { error } ==> cuts_cleanly(
            error@,
            ERROR_PREVIEW_MAX as int,
            ERROR_PREVIEW_KEEP as int,
        ),
    ensures
        r matches Some(t) ==> spec_status_label(*s) == Some(t@),
        r is None ==> spec_status_label(*s) is None,
{
    match s {
        JobStatus::Pending => Some(String::from_str("Pending")),
        JobStatus::Queued => Some(String::from_str("Queued")),
        JobStatus::Failed { error } => Some(
            shorten(error.as_str(), ERROR_PREVIEW_MAX, ERROR_PREVIEW_KEEP),
        ),
        JobStatus::Cancelled => Some(String::from_str("Cancelled")),
        _ => None,
    }
}

/// The first and one-past-last positions of the thumbnails shown: up to
/// five before the selected image and four after it.
pub open spec fn spec_thumbnail_window(selected: int, len: int) -> (int, int) {
    (if selected >= 5 {
        selected - 5
    } else {
        0
    }, if selected + 5 <= len {
        selected + 5
    } else {
        len
    })
}

/// The thumbnail window holds the selected image (when there is one at
/// that position), shows at most five images before it and four after it,
/// never reaches past the list, and shows ten images whenever there are
/// five before and four after the selected one.
pub proof fn law_thumbnail_window(selected: int, len: int)
    requires
        0 <= selected,
        0 <= len,
    ensures
        ({
            let (start, end) = spec_thumbnail_window(selected, len);
            &&& 0 <= start <= selected
            &&& selected - start <= 5
            &&& end <= len
            &&& end - selected <= 5
            &&& (selected < len ==> start <= selected < end)
            &&& (selected >= 5 && selected + 5 <= len ==> end - start == 10)
        }),
{
}

/// The window of thumbnails around the selected image.
pub fn thumbnail_window(selected: usize, len: usize) -> (r: (usize, usize))
    requires
        selected + 5 <= usize::MAX,
    ensures
        (r.0 as int, r.1 as int) == spec_thumbnail_window(selected as int, len as int),
{
    let start = selected.saturating_sub(5);
    let end = if selected + 5 <= len {
        selected + 5
    } else {
        len
    };
    (start, end)
}

/// A line of the thumbnail list.
#[derive(Debug, Clone, PartialEq)]
pub struct ThumbnailLine {
    /// Whether this is the selected image.
    pub selected: bool,
    /// "> " or two spaces, then the (shortened) file name.
    pub text: String,
}

/// The name shown for an image: its file name, or "unknown".
pub open spec fn shown_name(path: Seq<char>) -> Seq<char> {
    match file_name_of(path) {
        Some(n) => n,
        None => "unknown"@,
    }
}

/// Room for a name in a list `inner_width` cells wide.
pub open spec fn name_room(inner_width: u16) -> int {
    if inner_width >= 3 {
        inner_width - 3
    } else {
        0
    }
}

/// Characters kept of a longer name.
pub open spec fn name_keep(inner_width: u16) -> int {
    if name_room(inner_width) >= 3 {
        name_room(inner_width) - 3
    } else {
        0
    }
}

/// The line for image `idx`.
pub open spec fn spec_thumbnail_line(g: &GalleryState, idx: int, inner_width: u16) -> (bool, Seq<char>) {
    let sel = idx == g.selected;
    let name = spec_shorten(shown_name(g.images@[idx]@), name_room(inner_width), name_keep(inner_width));
    (sel, (if sel {
        "> "@
    } else {
        "  "@
    }) + name)
}

/// Every name shown can be cut at a character boundary.
pub open spec fn names_cut_cleanly(g: &GalleryState, inner_width: u16) -> bool {
    forall|i: int|
        0 <= i < g.images@.len() ==> cuts_cleanly(
            shown_name(#[trigger] g.images@[i]@),
            name_room(inner_width),
            name_keep(inner_width),
        )
}

/// The lines of the thumbnail list of a gallery shown `inner_width` cells
/// wide: the images in the window around the selection, the selected one
/// marked. (The screen adds a navigation hint below them.)
pub fn thumbnail_lines(g: &GalleryState, inner_width: u16) -> (lines: Vec<ThumbnailLine>)
    requires
        g.wf(),
        g.selected + 5 <= usize::MAX,
        names_cut_cleanly(g, inner_width),
    ensures
        ({
            let (start, end) = spec_thumbnail_window(g.selected as int, g.images@.len() as int);
            &&& lines@.len() == end - start
            &&& forall|k: int|
                0 <= k < lines@.len() ==> (#[trigger] lines@[k].selected, lines@[k].text@)
                    == spec_thumbnail_line(g, start + k, inner_width)
        }),
{
    let (start, end) = thumbnail_window(g.selected, g.images.len());
    let room = (inner_width as usize).saturating_sub(3);
    let keep = room.saturating_sub(3);
    let mut lines: Vec<ThumbnailLine> = Vec::new();
    let mut idx = start;
    while idx < end
        invariant
            g.wf(),
            start <= idx <= end,
            end <= g.images@.len(),
            (start as int, end as int) == spec_thumbnail_window(g.selected as int, g.images@.len() as int),
            room == name_room(inner_width),
            keep == name_keep(inner_width),
            names_cut_cleanly(g, inner_width),
            lines@.len() == idx - start,
            forall|k: int|
                0 <= k < lines@.len() ==> (#[trigger] lines@[k].selected, lines@[k].text@)
                    == spec_thumbnail_line(g, start + k, inner_width),
        decreases end - idx,
    {
        let path = &g.images[idx];
        let name = match path_file_name(path.as_str()) {
            Some(n) => n,
            None => String::from_str("unknown"),
        };
        proof {
            assert(cuts_cleanly(shown_name(g.images@[idx as int]@), room as int, keep as int));
        }
        let shown = shorten(name.as_str(), room, keep);
        let selected = idx == g.selected;
        let mut text = if selected {
            String::from_str("> ")
        } else {
            String::from_str("  ")
        };
        text.append(shown.as_str());
        lines.push(ThumbnailLine { selected, text });
        idx = idx + 1;
    }
    lines
}

/// The lines shown in place of an image that is not displayed: a title,
/// the file name (or "unknown"), and the error or "Loading...".
pub open spec fn spec_placeholder(path: Seq<char>, error: Option<Seq<char>>) -> Seq<Seq<char>> {
    seq![
        ""@,
        "[Image Preview]"@,
        ""@,
        shown_name(path),
        ""@,
        match error {
            Some(e) => "Error: "@ + e,
            None => "Loading..."@,
        },
    ]
}

/// The views of texts.
pub open spec fn text_views(s: Seq<String>) -> Seq<Seq<char>> {
    s.map_values(|t: String| t@)
}

/// The placeholder lines for an image.
pub fn render_image_placeholder(path: &str, error: Option<&str>) -> (lines: Vec<String>)
    ensures
        text_views(lines@) == spec_placeholder(
            path@,
            match error {
                Some(e) => Some(e@),
                None => None,
            },
        ),
{
    let name = match path_file_name(path) {
        Some(n) => n,
        None => String::from_str("unknown"),
    };
    let last = match error {
        Some(e) => {
            let mut t = String::from_str("Error: ");
            t.append(e);
            t
        },
        None => String::from_str("Loading..."),
    };
    let ghost err = match error {
        Some(e) => Some(e@),
        None => None,
    };
    let ghost expected = spec_placeholder(path@, err);
    let mut lines: Vec<String> = Vec::new();
    lines.push(String::new());
    lines.push(String::from_str("[Image Preview]"));
    lines.push(String::new());
    lines.push(name);
    lines.push(String::new());
    lines.push(last);
    proof {
        reveal_strlit("");
        assert(text_views(lines@)[0] == expected[0]);
        assert(text_views(lines@)[1] == expected[1]);
        assert(text_views(lines@)[2] == expected[2]);
        assert(text_views(lines@)[3] == expected[3]);
        assert(text_views(lines@)[4] == expected[4]);
        assert(text_views(lines@)[5] == expected[5]);
        assert(text_views(lines@) =~= expected);
    }
    lines
}


/// The texts of a job's line in the queue.
#[derive(Debug, Clone, PartialEq)]
pub struct JobRow {
    pub icon: &'static str,
    /// The first bytes of the id.
    pub id: String,
    /// The prompt, shortened.
    pub prompt: String,
    /// The status text, where it needs no number formatting.
    pub status: Option<String>,
    /// How long ago the job was submitted.
    pub elapsed: String,
}

/// A job's texts can all be cut at character boundaries.
pub open spec fn job_cuts_cleanly(job: Job) -> bool {
    &&& (bytes_of(job.id@).len() >= JOB_ID_SHOWN ==> is_char_boundary(bytes_of(job.id@), JOB_ID_SHOWN as int))
    &&& cuts_cleanly(job.prompt@, PROMPT_PREVIEW_MAX as int, PROMPT_PREVIEW_KEEP as int)
    &&& (job.status matches JobStatus::Failed { error } ==> cuts_cleanly(
        error@,
        ERROR_PREVIEW_MAX as int,
        ERROR_PREVIEW_KEEP as int,
    ))
}

/// The queue line of a job at time `now` (milliseconds of the clock its
/// submission time was taken from).
pub fn job_row(job: &Job, now: u64) -> (r: JobRow)
    requires
        job_cuts_cleanly(*job),
    ensures
        r.icon@ == spec_status_icon(job.status),
        r.id@ == spec_prefix(job.id@, JOB_ID_SHOWN as int),
        r.prompt@ == spec_shorten(job.prompt@, PROMPT_PREVIEW_MAX as int, PROMPT_PREVIEW_KEEP as int),
        r.status matches Some(t) ==> spec_status_label(job.status) == Some(t@),
        r.status is None ==> spec_status_label(job.status) is None,
        r.elapsed@ == spec_elapsed_text((job.elapsed_ms_spec(now) / 1000) as u64),
{
    JobRow {
        icon: status_icon(&job.status),
        id: byte_prefix(job.id.as_str(), JOB_ID_SHOWN),
        prompt: shorten(job.prompt.as_str(), PROMPT_PREVIEW_MAX, PROMPT_PREVIEW_KEEP),
        status: status_label(&job.status),
        elapsed: elapsed_text(job.elapsed_ms(now) / 1000),
    }
}

/// The first job that is still pending, queued or generating: the one
/// whose progress the prompt screen shows.
pub fn first_active_job(jobs: &Vec<Job>) -> (r: Option<usize>)
    ensures
        r matches Some(i) ==> i < jobs@.len() && status_active(jobs@[i as int].status) && forall|j: int| 0 <= j < i ==> !#[trigger] status_active(jobs@[j].status),
        r is None ==> forall|j: int| 0 <= j < jobs@.len() ==> !#[trigger] status_active(jobs@[j].status),
{
    let mut i: usize = 0;
    while i < jobs.len()
        invariant
            i <= jobs@.len(),
            forall|j: int| 0 <= j < i ==> !#[trigger] status_active(jobs@[j].status),
        decreases jobs@.len() - i,
    {
        if jobs[i].is_active() {
            return Some(i);
        }
        i = i + 1;
    }
    None
}

/// Load state of a gallery image's asset.
#[derive(Debug, Clone, PartialEq)]
pub enum AssetState {
    /// No preview has been created for the image.
    NoPreview,
    /// The preview has no asset handle.
    NoHandle,
    /// The asset is loading (or not started).
    Loading,
    /// Loading failed with a message.
    Failed(String),
    /// Loaded, and the image data is available.
    Loaded,
    /// Loaded, but the image data is missing.
    LoadedMissing,
}

/// What the main gallery pane shows.
#[derive(Debug, Clone, PartialEq)]
pub enum MainPreview {
    /// The gallery has no selected image.
    NoSelection,
    /// The selected image itself, drawn with Sixel or text.
    Image { path: String },
    /// A placeholder for the selected image, with an error or not.
    Placeholder { path: String, error: Option<String> },
}

/// What the main gallery pane shows for the selected image in the given
/// load state.
pub open spec fn spec_main_preview(selected: Option<Seq<char>>, state: AssetState) -> Option<(Seq<char>, Option<Seq<char>>, bool)> {
    match selected {
        None => None,
        Some(p) => match state {
            AssetState::NoPreview => Some((p, Some("Preview not loaded"@), false)),
            AssetState::NoHandle => Some((p, Some("No asset handle"@), false)),
            AssetState::Loading => Some((p, None, false)),
            AssetState::Failed(e) => Some((p, Some(e@), false)),
            AssetState::Loaded => Some((p, None, true)),
            AssetState::LoadedMissing => Some((p, Some("Image asset not found"@), false)),
        },
    }
}

/// The view of a main preview: the path, the error of a placeholder, and
/// whether the image itself is drawn.
pub open spec fn main_preview_view(m: MainPreview) -> Option<(Seq<char>, Option<Seq<char>>, bool)> {
    match m {
        MainPreview::NoSelection => None,
        MainPreview::Image { path } => Some((path@, None, true)),
        MainPreview::Placeholder { path, error } => Some((path@, match error {
            Some(e) => Some(e@),
            None => None,
        }, false)),
    }
}

/// Decide what the main gallery pane shows: nothing without a selection,
/// the image once its asset is loaded, else a placeholder that says why.
pub fn main_preview(g: &GalleryState, state: AssetState) -> (m: MainPreview)
    requires
        g.wf(),
    ensures
        main_preview_view(m) == spec_main_preview(
            if g.images@.len() > 0 {
                Some(g.images@[g.selected as int]@)
            } else {
                None
            },
            state,
        ),
{
    match g.current_image() {
        None => MainPreview::NoSelection,
        Some(p) => {
            let path = p.clone();
            match state {
                AssetState::NoPreview => MainPreview::Placeholder { path, error: Some(String::from_str("Preview not loaded")) },
                AssetState::NoHandle => MainPreview::Placeholder { path, error: Some(String::from_str("No asset handle")) },
                AssetState::Loading => MainPreview::Placeholder { path, error: None },
                AssetState::Failed(e) => MainPreview::Placeholder { path, error: Some(e) },
                AssetState::Loaded => MainPreview::Image { path },
                AssetState::LoadedMissing => MainPreview::Placeholder { path, error: Some(String::from_str("Image asset not found")) },
            }
        },
    }
}


/// How a backend log line is coloured.
#[derive(Debug, Clone, Copy, PartialEq, Eq, Structural)]
pub enum LogLevel {
    Error,
    Warn,
    Info,
    Plain,
}

/// The level of a log line: by the first of "ERROR"/"Error",
/// "WARN"/"Warning" and "INFO" that it contains.
pub open spec fn spec_log_level(line: Seq<char>) -> LogLevel {
    if contains_seq(line, "ERROR"@) || contains_seq(line, "Error"@) {
        LogLevel::Error
    } else if contains_seq(line, "WARN"@) || contains_seq(line, "Warning"@) {
        LogLevel::Warn
    } else if contains_seq(line, "INFO"@) {
        LogLevel::Info
    } else {
        LogLevel::Plain
    }
}

/// The level of a backend log line.
pub fn log_level(line: &str) -> (l: LogLevel)
    ensures
        l == spec_log_level(line@),
{
    if contains_text(line, "ERROR") || contains_text(line, "Error") {
        LogLevel::Error
    } else if contains_text(line, "WARN") || contains_text(line, "Warning") {
        LogLevel::Warn
    } else if contains_text(line, "INFO") {
        LogLevel::Info
    } else {
        LogLevel::Plain
    }
}

/// The first log line shown in a pane `height` cells high (two are taken
/// by its border): as many of the last lines as fit.
pub fn visible_log_start(lines: usize, height: u16) -> (start: usize)
    ensures
        start == if lines as int >= height as int - 2 && height >= 2 {
            lines - (height - 2)
        } else if height < 2 {
            lines as int
        } else {
            0
        },
{
    let max_lines = (height as usize).saturating_sub(2);
    lines.saturating_sub(max_lines)
}

/// Bytes of a prompt shown among the active jobs.
pub const ACTIVE_PROMPT_SHOWN: usize = 30;

/// Active jobs listed on the monitor screen.
pub const ACTIVE_JOBS_SHOWN: usize = 5;

/// The positions of the first `ACTIVE_JOBS_SHOWN` active jobs.
pub fn active_jobs(jobs: &Vec<Job>) -> (r: Vec<usize>)
    ensures
        r@.len() <= ACTIVE_JOBS_SHOWN,
        forall|k: int| 0 <= k < r@.len() ==> #[trigger] r@[k] < jobs@.len() && status_active(jobs@[r@[k] as int].status),
        forall|a: int, b: int| 0 <= a < b < r@.len() ==> #[trigger] r@[a] < #[trigger] r@[b],
        forall|i: int| 0 <= i < jobs@.len() && status_active(jobs@[i].status) && !r@.contains(i as usize) ==> r@.len() == ACTIVE_JOBS_SHOWN && i > r@.last(),
{
    let mut r: Vec<usize> = Vec::new();
    let mut i: usize = 0;
    while i < jobs.len() && r.len() < ACTIVE_JOBS_SHOWN
        invariant
            i <= jobs@.len(),
            r@.len() <= ACTIVE_JOBS_SHOWN,
            forall|k: int| 0 <= k < r@.len() ==> #[trigger] r@[k] < i && status_active(jobs@[r@[k] as int].status),
            forall|a: int, b: int| 0 <= a < b < r@.len() ==> #[trigger] r@[a] < #[trigger] r@[b],
            forall|j: int| 0 <= j < i && status_active(jobs@[j].status) ==> r@.contains(j as usize),
        decreases jobs@.len() - i,
    {
        if jobs[i].is_active() {
            let ghost before = r@;
            r.push(i);
            assert forall|j: int| 0 <= j < i + 1 && status_active(jobs@[j].status) implies r@.contains(j as usize) by {
                if j < i {
                    let k = choose|k: int| 0 <= k < before.len() && before[k] == j as usize;
                    assert(r@[k] == j as usize);
                } else {
                    assert(r@[r@.len() - 1] == j as usize);
                }
            }
        }
        i = i + 1;
    }
    proof {
        assert forall|j: int| 0 <= j < jobs@.len() && status_active(jobs@[j].status) && !r@.contains(j as usize) implies r@.len() == ACTIVE_JOBS_SHOWN && j > r@.last() by {
            assert(j >= i);
            assert(r@.len() == ACTIVE_JOBS_SHOWN);
            assert(r@.last() < i);
        }
    }
    r
}

/// Recent generations shown on the prompt screen.
pub const RECENT_SHOWN: usize = 3;

/// The names of the last `RECENT_SHOWN` gallery images, newest first.
pub open spec fn spec_recent_names(images: Seq<Seq<char>>) -> Seq<Seq<char>> {
    let n = if images.len() < RECENT_SHOWN { images.len() as int } else { RECENT_SHOWN as int };
    Seq::new(n as nat, |k: int| shown_name(images[images.len() - 1 - k]))
}

/// The names of the newest gallery images.
pub fn recent_names(images: &Vec<String>) -> (r: Vec<String>)
    ensures
        crate::classic::views(r@) == spec_recent_names(crate::classic::views(images@)),
{
    let n = images.len();
    let mut r: Vec<String> = Vec::new();
    let mut k: usize = 0;
    while k < n && k < RECENT_SHOWN
        invariant
            n == images@.len(),
            k <= n,
            k <= RECENT_SHOWN,
            r@.len() == k,
            forall|j: int| 0 <= j < k ==> (#[trigger] r@[j])@ == shown_name(images@[n - 1 - j]@),
        decreases RECENT_SHOWN - k,
    {
        let path = &images[n - 1 - k];
        let name = match path_file_name(path.as_str()) {
            Some(s) => s,
            None => String::from_str("unknown"),
        };
        r.push(name);
        k = k + 1;
    }
    assert(crate::classic::views(r@) =~= spec_recent_names(crate::classic::views(images@)));
    r
}

} // verus!
