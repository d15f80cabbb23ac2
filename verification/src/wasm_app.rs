//! What the page in the browser keeps and decides.
use vstd::prelude::*;
use vstd::string::*;

use crate::number::{parse_signed, read_signed, signed_decimal, signed_text};
use crate::text::{contains_text, holds_text, same_text, trim, trimmed};

verus! {

/// How many slots the page shows where nothing else is asked for.
pub const DEFAULT_LIMIT: i64 = 5000;

/// The most slots that can be asked for.
pub const MAX_LIMIT: i64 = 5000;

/// The most slots that the page shows on a device with a touch screen.
pub const MOBILE_MAX_LIMIT: i64 = 200;

/// The time between two requests for leaders, in milliseconds.
pub const AUTO_REFRESH_INTERVAL_MS: u32 = 30000;

/// The time between two updates of the times that are shown, in milliseconds.
pub const ETA_REFRESH_INTERVAL_MS: u32 = 1000;

/// How long a row takes to go, in milliseconds.
pub const ROW_ANIMATION_MS: u32 = 180;

/// How long it is shown that an address was copied, in milliseconds.
pub const COPY_FEEDBACK_MS: u32 = 1200;

/// How long after scrolling the page updates again, in milliseconds.
pub const SCROLL_RESUME_DELAY_MS: u32 = 300;

/// How long it is shown that the donation address was copied, in milliseconds.
pub const DONATE_COPY_RESET_MS: u32 = 1400;

/// What an empty table shows while leaders are asked for.
pub const LOADING: &'static str = "Loading...";

/// What an empty table shows where there are no leaders.
pub const NO_LEADERS: &'static str = "No leaders returned for this range.";

/// What an empty table shows where the leaders could not be had.
pub const UNABLE: &'static str = "Unable to load leaders.";

/// The number of slots that a parameter asks for, within limits.
pub open spec fn limit_in(text: Seq<char>) -> i64 {
    let asked = match read_signed(text) {
        Some(value) => value,
        None => DEFAULT_LIMIT as int,
    };
    if asked < 1 {
        1
    } else if asked > MAX_LIMIT {
        MAX_LIMIT
    } else {
        asked as i64
    }
}

/// The number of slots that a parameter asks for, within limits; the default where
/// it is no number.
pub fn parse_limit(value: &str) -> (limit: i64)
    ensures
        limit == limit_in(value@),
{
    let asked: i64 = match parse_signed(value) {
        Some(value) => value,
        None => DEFAULT_LIMIT,
    };
    if asked < 1 {
        1
    } else if asked > MAX_LIMIT {
        MAX_LIMIT
    } else {
        asked
    }
}

/// What the address of the page asks for.
#[derive(Clone, Copy, Debug, PartialEq, Eq, Structural)]
pub struct InitialConfig {
    pub limit: i64,
    pub window_override: Option<i64>,
}

/// At most so many slots.
pub open spec fn at_most(value: i64, most: i64) -> i64 {
    if value < most {
        value
    } else {
        most
    }
}

pub(crate) fn lesser(value: i64, most: i64) -> (least: i64)
    ensures
        least == at_most(value, most),
{
    if value < most {
        value
    } else {
        most
    }
}

/// What the parameters `limit`, `window` and `max` of the page's address ask for, of
/// which `window` counts before `max`.
pub open spec fn asked_config(
    limit: Option<Seq<char>>,
    window: Option<Seq<char>>,
    max: Option<Seq<char>>,
    is_touch_device: bool,
) -> InitialConfig {
    let asked = match limit {
        Some(text) => limit_in(text),
        None => DEFAULT_LIMIT,
    };
    let shown = match window {
        Some(text) => Some(limit_in(text)),
        None => match max {
            Some(text) => Some(limit_in(text)),
            None => None,
        },
    };
    InitialConfig {
        limit: if is_touch_device {
            at_most(asked, MOBILE_MAX_LIMIT)
        } else {
            asked
        },
        window_override: match shown {
            Some(value) => Some(
                if is_touch_device {
                    at_most(value, MOBILE_MAX_LIMIT)
                } else {
                    value
                },
            ),
            None => None,
        },
    }
}


/// What the parameters of the page's address ask for.
pub fn get_initial_config(
    limit: Option<&str>,
    window: Option<&str>,
    max: Option<&str>,
    is_touch_device: bool,
) -> (config: InitialConfig)
    ensures
        config == asked_config(
            match limit {
                Some(text) => Some(text@),
                None => None,
            },
            match window {
                Some(text) => Some(text@),
                None => None,
            },
            match max {
                Some(text) => Some(text@),
                None => None,
            },
            is_touch_device,
        ),
{
    let mut asked: i64 = match limit {
        Some(text) => parse_limit(text),
        None => DEFAULT_LIMIT,
    };
    let mut shown: Option<i64> = match window {
        Some(text) => Some(parse_limit(text)),
        None => match max {
            Some(text) => Some(parse_limit(text)),
            None => None,
        },
    };
    if is_touch_device {
        asked = lesser(asked, MOBILE_MAX_LIMIT);
        shown = match shown {
            Some(value) => Some(lesser(value, MOBILE_MAX_LIMIT)),
            None => None,
        };
    }
    InitialConfig { limit: asked, window_override: shown }
}

/// Whatever the address asks for, the numbers are in range, and in the smaller range
/// on a device with a touch screen.
pub proof fn asked_numbers_are_in_range(
    limit: Option<Seq<char>>,
    window: Option<Seq<char>>,
    max: Option<Seq<char>>,
    is_touch_device: bool,
)
    ensures
        ({
            let config = asked_config(limit, window, max, is_touch_device);
            let most = if is_touch_device {
                MOBILE_MAX_LIMIT
            } else {
                MAX_LIMIT
            };
            &&& 1 <= config.limit <= most
            &&& config.window_override is Some ==> 1 <= config.window_override->0 <= most
        }),
{
}

/// Where the page finds the stream: where it is told to, unless that is blank.
pub fn resolve_leader_stream_url(content: Option<&str>) -> (url: String)
    ensures
        url@ == if content is Some && trimmed(content->0@).len() > 0 {
            trimmed(content->0@)
        } else {
            "/api/leader-stream"@
        },
{
    if let Some(value) = content {
        let url: String = trim(value);
        if !url.as_str().is_empty() {
            return url;
        }
    }
    "/api/leader-stream".to_owned()
}

/// Whether the page was delivered with leaders: their text is not blank.
pub fn has_initial_payload(text: &str) -> (found: bool)
    ensures
        found == (trimmed(text@).len() > 0),
{
    !trim(text).as_str().is_empty()
}

/// The prefix that the filter's text asks for.
pub fn normalize_prefix(value: &str) -> (prefix: String)
    ensures
        prefix@ == trimmed(value@),
{
    trim(value)
}

/// The query for so many leaders.
pub fn build_params(limit: i64) -> (params: String)
    ensures
        params@ == "limit="@ + signed_decimal(limit as int),
{
    let mut params: String = "limit=".to_owned();
    params.append(signed_text(limit).as_str());
    params
}

/// The address at which so many leaders are asked for.
pub fn leaders_url(limit: i64) -> (url: String)
    ensures
        url@ == "/api/next-leaders?"@ + ("limit="@ + signed_decimal(limit as int)),
{
    let mut url: String = "/api/next-leaders?".to_owned();
    url.append(build_params(limit).as_str());
    url
}

/// What an error says: its text, where it is one; or else its message, where it has
/// one; or else what stands for it.
pub fn js_error_message(text: Option<String>, message: Option<String>, fallback: &str) -> (said:
    String)
    ensures
        said@ == match text {
            Some(text) => text@,
            None => match message {
                Some(message) => message@,
                None => fallback@,
            },
        },
{
    match text {
        Some(text) => text,
        None => match message {
            Some(message) => message,
            None => fallback.to_owned(),
        },
    }
}

/// Whether an event of the pointer or the focus ends what paused the page, and does
/// not begin it.
pub fn resumes(event_name: &str) -> (ends: bool)
    ensures
        ends == (holds_text(event_name@, "leave"@) || holds_text(event_name@, "out"@)),
{
    contains_text(event_name, "leave") || contains_text(event_name, "out")
}

/// Whether a key empties the filter.
pub fn clears_filter(key: &str) -> (clears: bool)
    ensures
        clears == (key@ == "Escape"@),
{
    same_text(key, "Escape")
}

/// Whether a key copies the address it is pressed on.
pub fn copies(key: &str) -> (copies: bool)
    ensures
        copies == (key@ == "Enter"@ || key@ == " "@),
{
    same_text(key, "Enter") || same_text(key, " ")
}

/// What a cell or a button has to copy: nothing where that is empty.
pub fn value_to_copy(value: Option<String>) -> (kept: Option<String>)
    ensures
        kept == if value is Some && value->0@.len() > 0 {
            value
        } else {
            None
        },
{
    match value {
        Some(text) => if text.as_str().is_empty() {
            None
        } else {
            Some(text)
        },
        None => None,
    }
}

/// What a cell shows again after it was copied from: what it says that it shows, or
/// else its text.
pub fn text_to_restore(display: Option<String>, text: Option<String>) -> (shown: String)
    ensures
        shown@ == match display {
            Some(display) => display@,
            None => match text {
                Some(text) => text@,
                None => Seq::empty(),
            },
        },
{
    match display {
        Some(display) => display,
        None => match text {
            Some(text) => text,
            None => {
                let blank: String = String::new();
                assert(blank@ =~= Seq::empty());
                blank
            },
        },
    }
}

/// What a copy of an address says of itself.
pub fn copy_feedback(copied: bool, done: &str) -> (text: String)
    ensures
        text@ == if copied {
            done@
        } else {
            "Copy failed"@
        },
{
    if copied {
        done.to_owned()
    } else {
        "Copy failed".to_owned()
    }
}

/// The row that an empty table shows.
pub fn empty_row(message: &str) -> (html: String)
    ensures
        html@ == "<tr><td colspan=\"5\" class=\"empty\">"@ + message@ + "</td></tr>"@,
{
    let mut html: String = "<tr><td colspan=\"5\" class=\"empty\">".to_owned();
    html.append(message);
    html.append("</td></tr>");
    html
}

/// Where a validator is described, by its name as part of an address.
pub fn validator_link(encoded: &str) -> (link: String)
    ensures
        link@ == "https://www.validators.app/validators?q="@ + encoded@ + "&network=mainnet"@,
{
    let mut link: String = "https://www.validators.app/validators?q=".to_owned();
    link.append(encoded);
    link.append("&network=mainnet");
    link
}

/// A cell whose text can be copied, where there is anything to copy.
pub struct CopyCell {
    pub display: String,
    pub value: String,
    pub copyable: bool,
}

/// The cell that shows a text and copies a value.
pub fn set_copy_cell(value: Option<&str>, display: &str) -> (cell: CopyCell)
    ensures
        cell.display@ == display@,
        cell.value@ == match value {
            Some(value) => value@,
            None => Seq::empty(),
        },
        cell.copyable == (value is Some && value->0@.len() > 0),
{
    match value {
        Some(value) => CopyCell {
            display: display.to_owned(),
            value: value.to_owned(),
            copyable: !value.is_empty(),
        },
        None => {
            let none: String = String::new();
            assert(none@ =~= Seq::empty());
            CopyCell { display: display.to_owned(), value: none, copyable: false }
        },
    }
}

/// How a row of the page stands in the table.
pub struct RowMark {
    /// The row is about to go.
    pub exiting: bool,
    /// The filter does not let the row pass.
    pub filtered: bool,
    /// The slot that the row says its run begins with.
    pub slot: Option<String>,
}

/// Whether a row is the one that is up: it stays and passes the filter.
pub open spec fn is_up(mark: RowMark) -> bool {
    !mark.exiting && !mark.filtered
}

/// The row that is up: the first one that stays and passes the filter.
pub fn update_active_row(marks: &Vec<RowMark>) -> (active: Option<usize>)
    ensures
        match active {
            Some(at) => at < marks@.len() && is_up(marks@[at as int]) && forall|i: int|
                0 <= i < at ==> !is_up(#[trigger] marks@[i]),
            None => forall|i: int| 0 <= i < marks@.len() ==> !is_up(#[trigger] marks@[i]),
        },
{
    let mut at: usize = 0;
    while at < marks.len()
        invariant
            at <= marks.len(),
            forall|i: int| 0 <= i < at ==> !is_up(#[trigger] marks@[i]),
        decreases marks.len() - at,
    {
        if !marks[at].exiting && !marks[at].filtered {
            return Some(at);
        }
        at = at + 1;
    }
    None
}

/// Whether a row stays and says that its run begins after `slot`.
pub open spec fn is_after(mark: RowMark, slot: i64) -> bool {
    !mark.exiting && mark.slot is Some && read_signed(mark.slot->0@) is Some && read_signed(
        mark.slot->0@,
    )->0 > slot
}

fn comes_after(mark: &RowMark, slot: i64) -> (after: bool)
    ensures
        after == is_after(*mark, slot),
{
    if mark.exiting {
        return false;
    }
    match &mark.slot {
        Some(text) => match parse_signed(text.as_str()) {
            Some(row_slot) => row_slot > slot,
            None => false,
        },
        None => false,
    }
}

/// The row before which a row for `slot` is to stand: the first one that stays and
/// begins after it. At the end where there is none.
pub fn insert_row_in_order(marks: &Vec<RowMark>, slot: i64) -> (before: Option<usize>)
    ensures
        match before {
            Some(at) => at < marks@.len() && is_after(marks@[at as int], slot) && forall|i: int|
                0 <= i < at ==> !is_after(#[trigger] marks@[i], slot),
            None => forall|i: int|
                0 <= i < marks@.len() ==> !is_after(#[trigger] marks@[i], slot),
        },
{
    let mut at: usize = 0;
    while at < marks.len()
        invariant
            at <= marks.len(),
            forall|i: int| 0 <= i < at ==> !is_after(#[trigger] marks@[i], slot),
        decreases marks.len() - at,
    {
        if comes_after(&marks[at], slot) {
            return Some(at);
        }
        at = at + 1;
    }
    None
}

} // verus!
