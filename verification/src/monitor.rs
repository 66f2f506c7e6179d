//! Choosing the target monitor among the DDC/CI displays, the retry policy
//! for DDC/CI commands, and how input codes travel over VCP feature 0x60.
use vstd::prelude::*;
use vstd::string::*;

use crate::text::{occurs_in, lower_text, occurs_ignoring_case, lemma_lower_match_ignores_case, chars_occur_in, chars_of, lowercase_text};

verus! {

/// VCP feature code for "Input Source" (MCCS 0x60).
pub const INPUT_SOURCE: u8 = 0x60;

/// DDC/CI over a real display link is flaky: a single command dropping a byte
/// or getting a truncated reply is normal, so each command is tried this many times.
pub const RETRY_ATTEMPTS: u32 = 5;

/// The wait after the n-th failed attempt (counting from 1) is n times this.
pub const RETRY_BASE_DELAY_MS: u64 = 60;

/// After a SET command, the monitor's control board gets this long to act on
/// it before another DDC/CI command.
pub const POST_SET_SETTLE_MS: u64 = 250;

/// What the app knows of a connected DDC/CI display.
#[derive(Debug)]
pub struct DisplayInfo {
    /// The backend's identifier for the display.
    pub id: String,
    /// The model name from the display's EDID, when it has one.
    pub model_name: Option<String>,
}

/// Why no monitor was chosen.
#[derive(Debug)]
pub enum FindError {
    /// No DDC/CI-capable display is connected.
    NoDisplays,
    /// Several displays are connected and none has a model name containing
    /// `model_match`; `found` names them all.
    NoMatch { model_match: String, found: Vec<String> },
}

/// What happens after an attempt of a DDC/CI command failed.
#[derive(Debug, PartialEq, Eq, Structural)]
pub struct RetryStep {
    /// How long to wait before going on.
    pub delay_ms: u64,
    /// Whether to try again after the wait; if not, the last error is returned.
    pub retry: bool,
}

/// How a display is named: its model name, or its id when it has none.
pub open spec fn display_name(info: DisplayInfo) -> Seq<char> {
    match info.model_name {
        Some(m) => m@,
        None => info.id@,
    }
}

pub open spec fn opt_text(o: Option<String>) -> Option<Seq<char>> {
    match o {
        Some(s) => Some(s@),
        None => None,
    }
}

/// The first index at or after `i` whose model name contains `needle`.
pub open spec fn match_position_from(models: Seq<Option<Seq<char>>>, needle: Seq<char>, i: int) -> Option<int>
    decreases models.len() - i,
{
    if i < 0 || i >= models.len() {
        None
    } else if models[i] matches Some(m) && occurs_in(needle, m) {
        Some(i)
    } else {
        match_position_from(models, needle, i + 1)
    }
}

/// The displays' model names, lower-cased.
pub open spec fn lowered_models(infos: Seq<DisplayInfo>) -> Seq<Option<Seq<char>>> {
    Seq::new(
        infos.len(),
        |i: int|
            match infos[i].model_name {
                Some(m) => Some(lower_text(m@)),
                None => None,
            },
    )
}

/// Which display `select_display` picks: the only one if there is exactly one,
/// else the first whose lower-cased model name contains the lower-cased
/// `model_match`.
pub open spec fn chosen_display(infos: Seq<DisplayInfo>, model_match: Seq<char>) -> Option<int> {
    if infos.len() == 1 {
        Some(0)
    } else {
        match_position_from(lowered_models(infos), lower_text(model_match), 0)
    }
}

impl DisplayInfo {
    /// The display's model name, or its id when it has none.
    pub fn name(&self) -> (r: String)
        ensures
            r@ == display_name(*self),
    {
        match &self.model_name {
            Some(m) => m.clone(),
            None => self.id.clone(),
        }
    }
}

/// The index of the first model name that contains `needle`.
pub fn first_match(models: &Vec<Option<String>>, needle: &str) -> (r: Option<usize>)
    ensures
        r matches Some(i) ==> Some(i as int) == match_position_from(
            models@.map_values(|m: Option<String>| opt_text(m)),
            needle@,
            0,
        ),
        r is None ==> match_position_from(
            models@.map_values(|m: Option<String>| opt_text(m)),
            needle@,
            0,
        ) is None,
{
    let ghost ms = models@.map_values(|m: Option<String>| opt_text(m));
    let n = chars_of(needle);
    let mut i: usize = 0;
    while i < models.len()
        invariant
            n@ == needle@,
            ms == models@.map_values(|m: Option<String>| opt_text(m)),
            i <= models@.len(),
            match_position_from(ms, needle@, 0) == match_position_from(ms, needle@, i as int),
        decreases models.len() - i,
    {
        let found = match &models[i] {
            Some(m) => {
                let cm = chars_of(m.as_str());
                chars_occur_in(&n, &cm)
            },
            None => false,
        };
        if found {
            assert(match_position_from(ms, needle@, i as int) == Some(i as int));
            return Some(i);
        }
        i = i + 1;
    }
    None
}

/// Finds the target monitor among all DDC/CI-capable displays: if exactly one
/// display is found it is used regardless of its name; if more than one is
/// found, the first whose model name contains `model_match` (both compared in
/// lower case) is used.
pub fn select_display(infos: &Vec<DisplayInfo>, model_match: &str) -> (r: Result<usize, FindError>)
    ensures
        infos@.len() == 0 ==> r matches Err(FindError::NoDisplays),
        infos@.len() > 0 ==> match chosen_display(infos@, model_match@) {
            Some(i) => r == Ok::<usize, FindError>(i as usize),
            None => r matches Err(FindError::NoMatch { model_match: m, found }) && m@
                == model_match@ && found@.len() == infos@.len() && forall|j: int|
                0 <= j < infos@.len() ==> (#[trigger] found@[j])@ == display_name(infos@[j]),
        },
{
    if infos.len() == 0 {
        return Err(FindError::NoDisplays);
    }
    if infos.len() == 1 {
        return Ok(0);
    }
    let needle = lowercase_text(model_match);
    let mut lowered: Vec<Option<String>> = Vec::new();
    let mut i: usize = 0;
    while i < infos.len()
        invariant
            i <= infos@.len(),
            lowered@.len() == i,
            forall|j: int|
                0 <= j < i ==> opt_text(#[trigger] lowered@[j]) == lowered_models(infos@)[j],
        decreases infos.len() - i,
    {
        let m = match &infos[i].model_name {
            Some(name) => Some(lowercase_text(name.as_str())),
            None => None,
        };
        lowered.push(m);
        i = i + 1;
    }
    assert(lowered@.map_values(|m: Option<String>| opt_text(m)) =~= lowered_models(infos@));
    match first_match(&lowered, needle.as_str()) {
        Some(k) => Ok(k),
        None => {
            let mut found: Vec<String> = Vec::new();
            let mut j: usize = 0;
            while j < infos.len()
                invariant
                    j <= infos@.len(),
                    found@.len() == j,
                    forall|k: int| 0 <= k < j ==> (#[trigger] found@[k])@ == display_name(infos@[k]),
                decreases infos.len() - j,
            {
                found.push(infos[j].name());
                j = j + 1;
            }
            Err(FindError::NoMatch { model_match: String::from_str(model_match), found })
        },
    }
}

/// What to do after attempt number `attempt` (counting from 0) of a DDC/CI
/// command failed: wait `RETRY_BASE_DELAY_MS * (attempt + 1)`, then try
/// again unless `RETRY_ATTEMPTS` attempts have been made.
pub fn after_failed_attempt(attempt: u32) -> (r: RetryStep)
    ensures
        r.delay_ms == RETRY_BASE_DELAY_MS * (attempt + 1),
        r.retry == (attempt + 1 < RETRY_ATTEMPTS),
{
    RetryStep {
        delay_ms: RETRY_BASE_DELAY_MS * (attempt as u64 + 1),
        retry: attempt < RETRY_ATTEMPTS - 1,
    }
}

/// The input code carried by a VCP reply's value bytes. MCCS defines Input
/// Source as a one-byte value and some monitors put garbage in the high byte,
/// so only the low byte counts.
pub fn input_code_from_value(high: u8, low: u8) -> (r: u16)
    ensures
        r == low as u16,
{
    low as u16
}

/// `match_position_from` finds the first model name, from `i` on, that
/// contains the needle: it is in range and contains it, and no model name
/// between `i` and it does; when it finds none, no model name from `i` on does.
pub proof fn lemma_match_position_is_first(models: Seq<Option<Seq<char>>>, needle: Seq<char>, i: int)
    requires
        0 <= i,
    ensures
        match match_position_from(models, needle, i) {
            Some(p) => i <= p < models.len() && (models[p] matches Some(m) && occurs_in(needle, m))
                && forall|j: int|
                i <= j < p ==> !(#[trigger] models[j] matches Some(m) && occurs_in(needle, m)),
            None => forall|j: int|
                i <= j < models.len() ==> !(#[trigger] models[j] matches Some(m) && occurs_in(
                    needle,
                    m,
                )),
        },
    decreases models.len() - i,
{
    if i < models.len() {
        lemma_match_position_is_first(models, needle, i + 1);
    }
}

/// Whether the display's model name contains `model_match` with letters
/// compared regardless of case.
pub open spec fn model_matches_ignoring_case(info: DisplayInfo, model_match: Seq<char>) -> bool {
    info.model_name matches Some(name) && occurs_ignoring_case(model_match, name@)
}

/// With several displays and ASCII names, the display chosen is the first
/// whose model name contains `model_match` regardless of letter case, and none
/// is chosen exactly when no model name contains it.
pub proof fn lemma_choice_ignores_case(infos: Seq<DisplayInfo>, model_match: Seq<char>)
    requires
        infos.len() > 1,
        vstd::utf8::is_ascii_chars(model_match),
        forall|j: int|
            0 <= j < infos.len() ==> (#[trigger] infos[j].model_name matches Some(n)
                ==> vstd::utf8::is_ascii_chars(n@)),
    ensures
        match chosen_display(infos, model_match) {
            Some(p) => 0 <= p < infos.len() && model_matches_ignoring_case(infos[p], model_match)
                && forall|j: int|
                0 <= j < p ==> !model_matches_ignoring_case(#[trigger] infos[j], model_match),
            None => forall|j: int|
                0 <= j < infos.len() ==> !model_matches_ignoring_case(#[trigger] infos[j], model_match),
        },
{
    let models = lowered_models(infos);
    let needle = lower_text(model_match);
    assert forall|j: int| 0 <= j < infos.len() implies (models[j] matches Some(m) && occurs_in(
        needle,
        m,
    )) == model_matches_ignoring_case(#[trigger] infos[j], model_match) by {
        if let Some(n) = infos[j].model_name {
            lemma_lower_match_ignores_case(model_match, n@);
        }
    }
    lemma_match_position_is_first(models, needle, 0);
}

/// The byte sent as the new value when a one-byte VCP write sets `code`:
/// the code itself, or nothing when it does not fit in a byte (such a code
/// cannot be sent whole, and a different input must not be selected instead).
pub fn input_value_byte(code: u16) -> (r: Option<u8>)
    ensures
        r == (if code <= 0xff {
            Some(code as u8)
        } else {
            None::<u8>
        }),
{
    if code <= 0xff {
        Some(code as u8)
    } else {
        None
    }
}

} // verus!
