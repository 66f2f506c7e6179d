//! The user's configuration: the hotkey, the monitor to look for, and the
//! list of inputs the hotkey cycles through.
use vstd::prelude::*;
use vstd::string::*;

verus! {

/// One monitor input the user can switch to.
#[derive(Debug)]
pub struct InputSource {
    pub name: String,
    /// DDC/CI VCP 0x60 input source value, e.g. 0x11 for HDMI-1.
    pub code: u16,
    /// Whether the hotkey's cycle includes this input. Disabled inputs are
    /// skipped by the hotkey but can still be switched to from the tray menu.
    pub enabled: bool,
}

/// What an input's `enabled` flag is when the config file leaves it out.
pub fn default_enabled() -> (r: bool)
    ensures
        r,
{
    true
}

/// What `open_at_login` is when the config file leaves it out.
pub fn default_open_at_login() -> (r: bool)
    ensures
        r,
{
    true
}

#[derive(Debug)]
pub struct Config {
    /// Global hotkey that cycles to the next input in `inputs`,
    /// e.g. "CmdOrCtrl+Alt+I".
    pub hotkey: String,
    /// Case-insensitive substring matched against a display's model name,
    /// used to pick the right monitor when more than one is connected.
    pub monitor_match: String,
    /// Whether the app registers itself to launch at login.
    pub open_at_login: bool,
    /// Inputs to cycle through, in order, when the hotkey is pressed.
    pub inputs: Vec<InputSource>,
}

/// The codes of the enabled inputs, in list order: what the hotkey cycles through.
pub open spec fn cycle_codes(inputs: Seq<InputSource>) -> Seq<u16>
    decreases inputs.len(),
{
    if inputs.len() == 0 {
        Seq::empty()
    } else {
        let rest = cycle_codes(inputs.drop_last());
        if inputs.last().enabled {
            rest.push(inputs.last().code)
        } else {
            rest
        }
    }
}

/// The first index at or after `i` where `code` stands in `s`.
pub open spec fn position_from(s: Seq<u16>, code: u16, i: int) -> Option<int>
    decreases s.len() - i,
{
    if i < 0 || i >= s.len() {
        None
    } else if s[i] == code {
        Some(i)
    } else {
        position_from(s, code, i + 1)
    }
}

/// The first index where `code` stands in `s`.
pub open spec fn first_position(s: Seq<u16>, code: u16) -> Option<int> {
    position_from(s, code, 0)
}

/// The input code that one press of the hotkey switches to: the entry after
/// the current input in the cycle (wrapping around), or the first entry when
/// the current input is unknown or not in the cycle; nothing when the cycle is empty.
pub open spec fn next_code(cycle: Seq<u16>, current: Option<u16>) -> Option<u16> {
    if cycle.len() == 0 {
        None
    } else {
        match current {
            Some(c) => match first_position(cycle, c) {
                Some(p) => Some(cycle[(p + 1) % (cycle.len() as int)]),
                None => Some(cycle[0]),
            },
            None => Some(cycle[0]),
        }
    }
}

/// Where `k` presses of the hotkey lead from the input `start`.
pub open spec fn after_presses(cycle: Seq<u16>, start: Option<u16>, k: nat) -> Option<u16>
    decreases k,
{
    if k == 0 {
        start
    } else {
        next_code(cycle, after_presses(cycle, start, (k - 1) as nat))
    }
}

/// `inputs` with the cycle flag of the input at `i` flipped.
pub open spec fn toggle_enabled(inputs: Seq<InputSource>, i: int) -> Seq<InputSource> {
    inputs.update(
        i,
        InputSource { name: inputs[i].name, code: inputs[i].code, enabled: !inputs[i].enabled },
    )
}

pub open spec fn no_duplicates(s: Seq<u16>) -> bool {
    forall|i: int, j: int| 0 <= i < j < s.len() ==> s[i] != s[j]
}

impl Default for Config {
    fn default() -> (c: Self)
        ensures
            c.hotkey@ == "CmdOrCtrl+Alt+I"@,
            c.monitor_match@ == "AW3926"@,
            c.open_at_login,
            c.inputs@.len() == 4,
            c.inputs@[0].name@ == "HDMI 1"@,
            c.inputs@[0].code == 0x11,
            c.inputs@[1].name@ == "HDMI 2"@,
            c.inputs@[1].code == 0x12,
            c.inputs@[2].name@ == "DisplayPort"@,
            c.inputs@[2].code == 0x0f,
            c.inputs@[3].name@ == "USB-C"@,
            c.inputs@[3].code == 0x1b,
            forall|i: int| 0 <= i < 4 ==> #[trigger] c.inputs@[i].enabled,
    {
        let mut inputs: Vec<InputSource> = Vec::new();
        inputs.push(InputSource { name: String::from_str("HDMI 1"), code: 0x11, enabled: true });
        inputs.push(InputSource { name: String::from_str("HDMI 2"), code: 0x12, enabled: true });
        inputs.push(
            InputSource { name: String::from_str("DisplayPort"), code: 0x0f, enabled: true },
        );
        // Dell's vendor-specific code for "DisplayPort over USB-C" on other
        // Dell/Alienware monitors; not confirmed on the AW3926QW itself.
        inputs.push(InputSource { name: String::from_str("USB-C"), code: 0x1b, enabled: true });
        Config {
            hotkey: String::from_str("CmdOrCtrl+Alt+I"),
            monitor_match: String::from_str("AW3926"),
            open_at_login: true,
            inputs,
        }
    }
}

impl Config {
    /// The codes of the enabled inputs, in list order.
    pub fn cycle_codes(&self) -> (r: Vec<u16>)
        ensures
            r@ == cycle_codes(self.inputs@),
    {
        let mut r: Vec<u16> = Vec::new();
        let mut i: usize = 0;
        while i < self.inputs.len()
            invariant
                i <= self.inputs@.len(),
                r@ == cycle_codes(self.inputs@.subrange(0, i as int)),
            decreases self.inputs.len() - i,
        {
            let ghost before = self.inputs@.subrange(0, i as int);
            assert(self.inputs@.subrange(0, i + 1).drop_last() =~= before);
            if self.inputs[i].enabled {
                r.push(self.inputs[i].code);
            }
            i = i + 1;
        }
        assert(self.inputs@.subrange(0, i as int) =~= self.inputs@);
        r
    }

    /// The input code one hotkey press switches to, given the current input.
    pub fn next_cycle_code(&self, current: Option<u16>) -> (r: Option<u16>)
        ensures
            r == next_code(cycle_codes(self.inputs@), current),
    {
        let cycle = self.cycle_codes();
        next_in_cycle(&cycle, current)
    }

    /// The code of the configured input at `index`, if there is one.
    pub fn input_code(&self, index: usize) -> (r: Option<u16>)
        ensures
            r == (if index < self.inputs@.len() {
                Some(self.inputs@[index as int].code)
            } else {
                None
            }),
    {
        if index < self.inputs.len() {
            Some(self.inputs[index].code)
        } else {
            None
        }
    }

    /// Flips whether the input at `index` takes part in the hotkey's cycle;
    /// returns whether there is such an input.
    pub fn toggle_cycle(&mut self, index: usize) -> (found: bool)
        ensures
            found == (index < old(self).inputs@.len()),
            found ==> final(self).inputs@ == toggle_enabled(old(self).inputs@, index as int),
            final(self).inputs@.len() == old(self).inputs@.len(),
            found ==> final(self).inputs@[index as int].enabled == !old(
                self,
            ).inputs@[index as int].enabled,
            found ==> final(self).inputs@[index as int].code == old(self).inputs@[index as int].code,
            found ==> final(self).inputs@[index as int].name == old(self).inputs@[index as int].name,
            forall|j: int|
                0 <= j < old(self).inputs@.len() && j != index ==> #[trigger] final(self).inputs@[j]
                    == old(self).inputs@[j],
            !found ==> final(self).inputs@ == old(self).inputs@,
            final(self).hotkey == old(self).hotkey,
            final(self).monitor_match == old(self).monitor_match,
            final(self).open_at_login == old(self).open_at_login,
    {
        if index >= self.inputs.len() {
            return false;
        }
        let mut input = self.inputs.remove(index);
        input.enabled = !input.enabled;
        self.inputs.insert(index, input);
        assert(self.inputs@ =~= toggle_enabled(old(self).inputs@, index as int));
        true
    }

    /// Flips whether the app launches at login.
    pub fn toggle_open_at_login(&mut self)
        ensures
            final(self).open_at_login == !old(self).open_at_login,
            final(self).hotkey == old(self).hotkey,
            final(self).monitor_match == old(self).monitor_match,
            final(self).inputs@ == old(self).inputs@,
    {
        self.open_at_login = !self.open_at_login;
    }
}

/// The input code one hotkey press switches to, given the cycle's codes and
/// the current input (`None` when it could not be read).
pub fn next_in_cycle(cycle: &Vec<u16>, current: Option<u16>) -> (r: Option<u16>)
    ensures
        r == next_code(cycle@, current),
{
    let n = cycle.len();
    if n == 0 {
        return None;
    }
    match current {
        None => Some(cycle[0]),
        Some(c) => {
            let mut i: usize = 0;
            while i < n
                invariant
                    n == cycle@.len(),
                    n > 0,
                    current == Some(c),
                    i <= n,
                    first_position(cycle@, c) == position_from(cycle@, c, i as int),
                decreases n - i,
            {
                if cycle[i] == c {
                    assert(position_from(cycle@, c, i as int) == Some(i as int));
                    return Some(cycle[(i + 1) % n]);
                }
                i = i + 1;
            }
            Some(cycle[0])
        },
    }
}

proof fn lemma_position_of_distinct(s: Seq<u16>, p: int, i: int)
    requires
        no_duplicates(s),
        0 <= i <= p < s.len(),
    ensures
        position_from(s, s[p], i) == Some(p),
    decreases p - i,
{
    if i < p {
        lemma_position_of_distinct(s, p, i + 1);
    }
}

/// Every code the hotkey switches to is the code of an enabled input.
pub proof fn lemma_next_is_enabled(inputs: Seq<InputSource>, current: Option<u16>)
    ensures
        next_code(cycle_codes(inputs), current) matches Some(code) ==> exists|i: int|
            0 <= i < inputs.len() && (#[trigger] inputs[i]).enabled && inputs[i].code == code,
{
    let cycle = cycle_codes(inputs);
    if let Some(code) = next_code(cycle, current) {
        let k = if current is Some && first_position(cycle, current->0) is Some {
            (first_position(cycle, current->0)->0 + 1) % (cycle.len() as int)
        } else {
            0
        };
        lemma_position_in_range(cycle, current);
        lemma_cycle_member(inputs, k);
    }
}

proof fn lemma_position_in_range(cycle: Seq<u16>, current: Option<u16>)
    ensures
        current matches Some(c) ==> (first_position(cycle, c) matches Some(p) ==> 0 <= p
            < cycle.len() && cycle[p] == c),
{
    if let Some(c) = current {
        lemma_position_from_in_range(cycle, c, 0);
    }
}

proof fn lemma_position_from_in_range(s: Seq<u16>, c: u16, i: int)
    ensures
        position_from(s, c, i) matches Some(p) ==> i <= p < s.len() && s[p] == c,
    decreases s.len() - i,
{
    if 0 <= i < s.len() && s[i] != c {
        lemma_position_from_in_range(s, c, i + 1);
    }
}

/// `first_position` finds the first place of the code: the code stands there
/// and nowhere before; when it finds none, the code stands nowhere.
pub proof fn lemma_first_position_is_first(s: Seq<u16>, code: u16)
    ensures
        match first_position(s, code) {
            Some(p) => 0 <= p < s.len() && s[p] == code && forall|j: int|
                0 <= j < p ==> #[trigger] s[j] != code,
            None => forall|j: int| 0 <= j < s.len() ==> #[trigger] s[j] != code,
        },
{
    lemma_position_from_first(s, code, 0);
}

proof fn lemma_position_from_first(s: Seq<u16>, code: u16, i: int)
    requires
        0 <= i,
    ensures
        match position_from(s, code, i) {
            Some(p) => i <= p < s.len() && s[p] == code && forall|j: int|
                i <= j < p ==> #[trigger] s[j] != code,
            None => forall|j: int| i <= j < s.len() ==> #[trigger] s[j] != code,
        },
    decreases s.len() - i,
{
    if i < s.len() {
        lemma_position_from_first(s, code, i + 1);
    }
}

/// Every enabled input's code is in the hotkey's cycle, and the cycle has one
/// entry per enabled input (with `lemma_cycle_member`: the cycle holds exactly
/// the codes of the enabled inputs).
pub proof fn lemma_cycle_is_enabled_codes(inputs: Seq<InputSource>)
    ensures
        forall|i: int|
            0 <= i < inputs.len() && (#[trigger] inputs[i]).enabled ==> cycle_codes(
                inputs,
            ).contains(inputs[i].code),
        cycle_codes(inputs).len() == inputs.filter(|x: InputSource| x.enabled).len(),
    decreases inputs.len(),
{
    if inputs.len() > 0 {
        let d = inputs.drop_last();
        lemma_cycle_is_enabled_codes(d);
        assert(inputs.filter(|x: InputSource| x.enabled) == if inputs.last().enabled {
            d.filter(|x: InputSource| x.enabled).push(inputs.last())
        } else {
            d.filter(|x: InputSource| x.enabled)
        }) by {
            reveal_with_fuel(Seq::<_>::filter, 1);
            assert(inputs =~= d.push(inputs.last()));
        }
        assert forall|i: int| 0 <= i < inputs.len() && (#[trigger] inputs[i]).enabled implies cycle_codes(
            inputs,
        ).contains(inputs[i].code) by {
            if i < inputs.len() - 1 {
                assert(d[i] == inputs[i]);
                let k = choose|k: int| 0 <= k < cycle_codes(d).len() && cycle_codes(d)[k] == d[i].code;
                assert(cycle_codes(inputs)[k] == inputs[i].code);
            } else {
                assert(cycle_codes(inputs).last() == inputs[i].code);
            }
        }
    } else {
        assert(inputs.filter(|x: InputSource| x.enabled) =~= Seq::<InputSource>::empty()) by {
            reveal_with_fuel(Seq::<_>::filter, 1);
        }
    }
}

/// Each code of the cycle belongs to an enabled input.
pub proof fn lemma_cycle_member(inputs: Seq<InputSource>, k: int)
    requires
        0 <= k < cycle_codes(inputs).len(),
    ensures
        exists|i: int|
            0 <= i < inputs.len() && (#[trigger] inputs[i]).enabled && inputs[i].code
                == cycle_codes(inputs)[k],
    decreases inputs.len(),
{
    let rest = cycle_codes(inputs.drop_last());
    if inputs.last().enabled && k == rest.len() {
        assert(inputs[inputs.len() - 1].enabled);
    } else {
        lemma_cycle_member(inputs.drop_last(), k);
        let i = choose|i: int|
            0 <= i < inputs.drop_last().len() && (#[trigger] inputs.drop_last()[i]).enabled
                && inputs.drop_last()[i].code == rest[k];
        assert(inputs[i] == inputs.drop_last()[i]);
    }
}

/// Pressing the hotkey from an input of the cycle switches to the next one in
/// the list, wrapping from the last back to the first (codes all distinct).
pub proof fn lemma_next_of_member(cycle: Seq<u16>, p: int)
    requires
        no_duplicates(cycle),
        0 <= p < cycle.len(),
    ensures
        next_code(cycle, Some(cycle[p])) == Some(cycle[(p + 1) % (cycle.len() as int)]),
{
    lemma_position_of_distinct(cycle, p, 0);
}

/// With distinct codes, `k` presses from the input at position `p` of the cycle
/// lead to position `(p + k) mod n`: the hotkey visits every enabled input in
/// order and comes back after `n` presses.
pub proof fn lemma_presses_walk_cycle(cycle: Seq<u16>, p: int, k: nat)
    requires
        no_duplicates(cycle),
        0 <= p < cycle.len(),
    ensures
        after_presses(cycle, Some(cycle[p]), k) == Some(cycle[(p + k) % (cycle.len() as int)]),
    decreases k,
{
    let n = cycle.len() as int;
    if k == 0 {
        vstd::arithmetic::div_mod::lemma_small_mod(p as nat, n as nat);
    } else {
        lemma_presses_walk_cycle(cycle, p, (k - 1) as nat);
        let q = (p + k - 1) % n;
        vstd::arithmetic::div_mod::lemma_mod_bound(p + k - 1, n);
        lemma_next_of_member(cycle, q);
        vstd::arithmetic::div_mod::lemma_add_mod_noop(p + k - 1, 1, n);
        vstd::arithmetic::div_mod::lemma_mod_bound(1, n);
        if n == 1 {
            assert(1int % 1 == 0);
        } else {
            vstd::arithmetic::div_mod::lemma_small_mod(1, n as nat);
        }
        vstd::arithmetic::div_mod::lemma_mod_twice(q + 1, n);
    }
}

/// After one press from anywhere, the hotkey stands on an input of the cycle;
/// `n` more presses bring it back there (codes all distinct).
pub proof fn lemma_cycle_period(cycle: Seq<u16>, start: Option<u16>)
    requires
        no_duplicates(cycle),
        cycle.len() > 0,
    ensures
        after_presses(cycle, start, cycle.len() + 1) == after_presses(cycle, start, 1),
{
    let n = cycle.len() as int;
    let first = after_presses(cycle, start, 1);
    assert(after_presses(cycle, start, 0) == start);
    lemma_position_in_range(cycle, start);
    let p: int = if start is Some && first_position(cycle, start->0) is Some {
        (first_position(cycle, start->0)->0 + 1) % n
    } else {
        0
    };
    vstd::arithmetic::div_mod::lemma_mod_bound(
        if start is Some && first_position(cycle, start->0) is Some {
            first_position(cycle, start->0)->0 + 1
        } else {
            0
        },
        n,
    );
    assert(first == Some(cycle[p]));
    lemma_presses_shift(cycle, start, n as nat);
    lemma_presses_walk_cycle(cycle, p, n as nat);
    vstd::arithmetic::div_mod::lemma_mod_add_multiples_vanish(p, n);
    vstd::arithmetic::div_mod::lemma_small_mod(p as nat, n as nat);
}

/// `k + 1` presses from `start` are `k` presses from where the first press lands.
proof fn lemma_presses_shift(cycle: Seq<u16>, start: Option<u16>, k: nat)
    ensures
        after_presses(cycle, start, k + 1) == after_presses(
            cycle,
            after_presses(cycle, start, 1),
            k,
        ),
    decreases k,
{
    if k > 0 {
        lemma_presses_shift(cycle, start, (k - 1) as nat);
    }
}

/// Toggling flips exactly the chosen input's flag: that input keeps its name
/// and code and has its flag negated, and every other input is unchanged.
pub proof fn lemma_toggle_flips_one(inputs: Seq<InputSource>, i: int)
    requires
        0 <= i < inputs.len(),
    ensures
        toggle_enabled(inputs, i).len() == inputs.len(),
        toggle_enabled(inputs, i)[i].enabled == !inputs[i].enabled,
        toggle_enabled(inputs, i)[i].code == inputs[i].code,
        toggle_enabled(inputs, i)[i].name == inputs[i].name,
        forall|j: int|
            0 <= j < inputs.len() && j != i ==> #[trigger] toggle_enabled(inputs, i)[j] == inputs[j],
{
}

/// Toggling an input takes exactly one entry out of the hotkey's cycle when
/// the input was in it, and puts exactly one in when it was not.
pub proof fn lemma_toggle_changes_cycle_by_one(inputs: Seq<InputSource>, i: int)
    requires
        0 <= i < inputs.len(),
    ensures
        cycle_codes(toggle_enabled(inputs, i)).len() == if inputs[i].enabled {
            cycle_codes(inputs).len() - 1
        } else {
            cycle_codes(inputs).len() + 1int
        },
    decreases inputs.len(),
{
    let t = toggle_enabled(inputs, i);
    if i == inputs.len() - 1 {
        assert(t.drop_last() =~= inputs.drop_last());
    } else {
        assert(t.drop_last() =~= toggle_enabled(inputs.drop_last(), i));
        assert(t.last() == inputs.last());
        lemma_toggle_changes_cycle_by_one(inputs.drop_last(), i);
    }
}

/// Flipping the same input's cycle flag twice gives back the original list.
pub proof fn lemma_toggle_twice(inputs: Seq<InputSource>, i: int)
    requires
        0 <= i < inputs.len(),
    ensures
        toggle_enabled(toggle_enabled(inputs, i), i) == inputs,
{
    assert(toggle_enabled(toggle_enabled(inputs, i), i) =~= inputs);
}

} // verus!
