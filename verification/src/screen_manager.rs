//! The screen scheduler: an ordered list of screens, one of them active,
//! with rotation over the enabled ones, enabling and disabling, and short
//! activations that revert by themselves.
//!
//! The scheduler keeps each screen's key, description and enabled flag as
//! it read them when it was built, and is from then on the one that changes
//! the flag. Time comes in as an argument: milliseconds on any clock that
//! does not run backwards.
//!
//! Whatever the scheduler tells a screen goes through one place, which
//! also writes it down; the contracts say of each operation what it told
//! to which screen, in order.

use crate::rotation::{
    enabled_total, find_first_enabled, find_next_enabled, find_previous_enabled, first_enabled,
    lemma_first_enabled, lemma_next_enabled_skips_disabled, lemma_previous_enabled_skips_disabled,
    lemma_rotation_is_circular, next_enabled, previous_enabled, rotate,
};
use crate::screen::{BasicScreen, Command};
use vstd::prelude::*;

verus! {

/// How long a short activation lasts, in milliseconds.
pub const SHORT_ACTIVATION_MS: u64 = 3000;

/// The texts that a list of strings holds.
pub open spec fn texts(strings: Seq<String>) -> Seq<Seq<char>> {
    strings.map_values(|text: String| text@)
}

/// The first position at or after `from` that holds `key`, or none.
pub open spec fn position_of(keys: Seq<Seq<char>>, key: Seq<char>, from: int) -> Option<int>
    decreases keys.len() - from,
{
    if from < 0 || from >= keys.len() {
        None
    } else if keys[from] == key {
        Some(from)
    } else {
        position_of(keys, key, from + 1)
    }
}

/// One command as it was issued: the position of the screen, and what it
/// was told.
pub struct Told {
    pub screen: int,
    pub command: Command,
}

/// Whether one of `commands` went to the screen at `index`.
pub open spec fn told_in(commands: Seq<Told>, index: int) -> bool {
    exists|k: int| 0 <= k < commands.len() && (#[trigger] commands[k]).screen == index
}

/// The new status for each screen called `key` among the first `upto`, in
/// their order.
pub open spec fn status_commands(
    keys: Seq<Seq<char>>,
    key: Seq<char>,
    status: bool,
    upto: int,
) -> Seq<Told>
    decreases upto,
{
    if upto <= 0 {
        Seq::empty()
    } else if keys[upto - 1] == key {
        status_commands(keys, key, status, upto - 1).push(
            Told { screen: upto - 1, command: Command::SetStatus(status) },
        )
    } else {
        status_commands(keys, key, status, upto - 1)
    }
}

/// The scheduler as a value of the model.
pub struct Schedule {
    pub keys: Seq<Seq<char>>,
    pub descriptions: Seq<Seq<char>>,
    pub enabled: Seq<bool>,
    /// Position of the active screen.
    pub current: int,
    /// Position of the screen that was active before the short activation.
    pub last_screen: int,
    /// Whether a short activation is in progress.
    pub switch_in_progress: bool,
    /// When the short activation began.
    pub since: u64,
}

impl Schedule {
    /// Whether the schedule holds one key, one description and one flag
    /// for each of at least one screen, and both positions lie among them.
    pub open spec fn well_formed(self) -> bool {
        &&& self.keys.len() > 0
        &&& self.descriptions.len() == self.keys.len()
        &&& self.enabled.len() == self.keys.len()
        &&& 0 <= self.current < self.keys.len()
        &&& 0 <= self.last_screen < self.keys.len()
    }

    /// Whether a short activation is in progress and has run out at `now`.
    pub open spec fn expired(self, now: u64) -> bool {
        self.switch_in_progress && now >= self.since && now - self.since >= SHORT_ACTIVATION_MS
    }

    /// The schedule once the active screen was asked for at `now`: a short
    /// activation that has run out is over, and the screen from before it
    /// is active again.
    pub open spec fn current_screen(self, now: u64) -> Schedule {
        if self.expired(now) {
            Schedule { current: self.last_screen, switch_in_progress: false, ..self }
        } else {
            self
        }
    }

    /// The schedule after going on to the next enabled screen.
    pub open spec fn next_screen(self, now: u64) -> Schedule {
        let settled = self.current_screen(now);
        Schedule {
            current: next_enabled(settled.enabled, settled.current),
            switch_in_progress: false,
            ..settled
        }
    }

    /// The schedule after going back to the enabled screen before.
    pub open spec fn previous_screen(self, now: u64) -> Schedule {
        let settled = self.current_screen(now);
        Schedule {
            current: previous_enabled(settled.enabled, settled.current),
            switch_in_progress: false,
            ..settled
        }
    }

    /// The screen that a short activation of `key` switches to: the first
    /// one with that key, if it is enabled.
    pub open spec fn short_target(self, key: Seq<char>) -> Option<int> {
        match position_of(self.keys, key, 0) {
            Some(index) => if self.enabled[index] {
                Some(index)
            } else {
                None
            },
            None => None,
        }
    }

    /// The schedule after activating the screen `key` for a short while.
    /// Nothing changes where no screen has that key, or the first one that
    /// has it is disabled.
    pub open spec fn set_screen_for_short(self, key: Seq<char>, now: u64) -> Schedule {
        match self.short_target(key) {
            Some(index) => Schedule {
                current: index,
                last_screen: if self.switch_in_progress {
                    self.last_screen
                } else {
                    self.current
                },
                switch_in_progress: true,
                since: now,
                ..self
            },
            None => self,
        }
    }

    /// Whether a screen other than those with `key` is enabled, so that
    /// disabling `key` leaves one.
    pub open spec fn screen_deactivatable(self, key: Seq<char>) -> bool {
        exists|i: int| 0 <= i < self.keys.len() && self.enabled[i] && #[trigger] self.keys[i] != key
    }

    /// The flags with those of the screens called `key` set to `status`.
    pub open spec fn flags_with(self, key: Seq<char>, status: bool) -> Seq<bool> {
        Seq::new(
            self.enabled.len(),
            |i: int|
                if self.keys[i] == key {
                    status
                } else {
                    self.enabled[i]
                },
        )
    }

    /// Whether a change of status goes through: some screen has the key,
    /// and the change would not leave every screen disabled.
    pub open spec fn status_accepted(self, key: Seq<char>, status: bool) -> bool {
        position_of(self.keys, key, 0) is Some && (status || self.screen_deactivatable(key))
    }

    /// The schedule with the flags of the screens called `key` set to
    /// `status` and no short activation in progress.
    pub open spec fn with_status(self, key: Seq<char>, status: bool) -> Schedule {
        Schedule { enabled: self.flags_with(key, status), switch_in_progress: false, ..self }
    }

    /// The schedule after enabling or disabling the screens called `key`.
    /// Nothing changes where no screen has that key, or where disabling
    /// would leave no screen enabled. Else any short activation is made
    /// permanent, and where the active screen was disabled the next enabled
    /// one takes over.
    pub open spec fn set_status_for_screen(self, key: Seq<char>, status: bool, now: u64) -> Schedule {
        if !self.status_accepted(key, status) {
            self
        } else if !status && self.keys[self.current] == key {
            self.with_status(key, status).next_screen(now)
        } else {
            self.with_status(key, status)
        }
    }

    /// What asking for the active screen at `now` tells: the screen of a
    /// short activation that has run out is updated once more; otherwise
    /// the active screen is started.
    pub open spec fn told_by_current(self, now: u64) -> Seq<Told> {
        if self.expired(now) {
            seq![Told { screen: self.current, command: Command::Update }]
        } else {
            seq![Told { screen: self.current, command: Command::Start }]
        }
    }

    /// What going on to the next screen tells: what asking for the active
    /// screen tells, then the active screen is stopped and the one that is
    /// active afterwards is started.
    pub open spec fn told_by_next(self, now: u64) -> Seq<Told> {
        self.told_by_current(now) + seq![
            Told { screen: self.current_screen(now).current, command: Command::Stop },
            Told { screen: self.next_screen(now).current, command: Command::Start },
        ]
    }

    /// What going back to the screen before tells, in the same way.
    pub open spec fn told_by_previous(self, now: u64) -> Seq<Told> {
        self.told_by_current(now) + seq![
            Told { screen: self.current_screen(now).current, command: Command::Stop },
            Told { screen: self.previous_screen(now).current, command: Command::Start },
        ]
    }

    /// What updating the active screen tells: what asking for the active
    /// screen tells, then that screen is updated.
    pub open spec fn told_by_update(self, now: u64) -> Seq<Told> {
        self.told_by_current(now) + seq![
            Told { screen: self.current_screen(now).current, command: Command::Update },
        ]
    }

    /// What a short activation of `key` in the sub-mode `mode` tells:
    /// nothing where it does not happen; else the active screen is stopped,
    /// unless a short activation is in progress already, and the screen
    /// that it switches to is given the sub-mode and started.
    pub open spec fn told_by_short(self, key: Seq<char>, mode: u32) -> Seq<Told> {
        match self.short_target(key) {
            Some(index) => (if self.switch_in_progress {
                Seq::empty()
            } else {
                seq![Told { screen: self.current, command: Command::Stop }]
            }) + seq![
                Told { screen: index, command: Command::SetMode(mode) },
                Told { screen: index, command: Command::Start },
            ],
            None => Seq::empty(),
        }
    }

    /// What a change of status tells: nothing where it does not go
    /// through; else each screen called `key` gets its new status, in
    /// order, and where the active screen was disabled, what going on to
    /// the next screen tells follows.
    pub open spec fn told_by_status(self, key: Seq<char>, status: bool, now: u64) -> Seq<Told> {
        if !self.status_accepted(key, status) {
            Seq::empty()
        } else if !status && self.keys[self.current] == key {
            status_commands(self.keys, key, status, self.keys.len() as int) + self.with_status(
                key,
                status,
            ).told_by_next(now)
        } else {
            status_commands(self.keys, key, status, self.keys.len() as int)
        }
    }

    /// The schedule after going on to the next enabled screen `times` times.
    pub open spec fn next_times(self, times: nat, now: u64) -> Schedule
        decreases times,
    {
        if times == 0 {
            self
        } else {
            self.next_times((times - 1) as nat, now).next_screen(now)
        }
    }

    /// Whether the screen at `index` is the only enabled one.
    pub open spec fn sole_enabled(self, index: int) -> bool {
        &&& 0 <= index < self.enabled.len()
        &&& forall|i: int| 0 <= i < self.enabled.len() ==> (#[trigger] self.enabled[i] <==> i == index)
    }

    /// Whether any screen is enabled.
    pub open spec fn any_enabled(self) -> bool {
        exists|i: int| 0 <= i < self.enabled.len() && #[trigger] self.enabled[i]
    }

    /// Whether the schedule shows what may be shown: the active screen is
    /// enabled, and so is the screen that a short activation in progress
    /// comes back to.
    pub open spec fn sound(self) -> bool {
        &&& self.well_formed()
        &&& self.enabled[self.current]
        &&& self.switch_in_progress ==> self.enabled[self.last_screen]
    }

    /// The schedule as it is built from what the screens report: the
    /// first enabled screen is active, the first screen where none is
    /// enabled, and no short activation is in progress.
    pub open spec fn initial(
        keys: Seq<Seq<char>>,
        descriptions: Seq<Seq<char>>,
        enabled: Seq<bool>,
    ) -> Schedule {
        let first = match first_enabled(enabled, 0) {
            Some(index) => index,
            None => 0,
        };
        Schedule {
            keys,
            descriptions,
            enabled,
            current: first,
            last_screen: first,
            switch_in_progress: false,
            since: 0,
        }
    }
}

/// The scheduler.
pub struct ScreenManager {
    screens: Vec<Box<dyn BasicScreen>>,
    keys: Vec<String>,
    descriptions: Vec<String>,
    enabled: Vec<bool>,
    current: usize,
    since: u64,
    last_screen: usize,
    switch_in_progress: bool,
    issued: Ghost<Seq<Told>>,
}

impl View for ScreenManager {
    type V = Schedule;

    closed spec fn view(&self) -> Schedule {
        Schedule {
            keys: texts(self.keys@),
            descriptions: texts(self.descriptions@),
            enabled: self.enabled@,
            current: self.current as int,
            last_screen: self.last_screen as int,
            switch_in_progress: self.switch_in_progress,
            since: self.since,
        }
    }
}

impl ScreenManager {
    /// Whether the scheduler holds what it was built to hold: a schedule
    /// that is well formed, over as many screens as it has keys.
    pub open spec fn well_formed(&self) -> bool {
        &&& self@.well_formed()
        &&& self.sources().len() == self@.keys.len()
    }

    /// The screens themselves, in their order.
    pub closed spec fn sources(&self) -> Seq<Box<dyn BasicScreen>> {
        self.screens@
    }

    /// Every command that the scheduler has issued since it was built, in
    /// order.
    pub closed spec fn issued(&self) -> Seq<Told> {
        self.issued@
    }

    /// Whether the screens are those of `before`, but for the ones at the
    /// positions in `told`: no other screen was told anything.
    pub open spec fn told_only(&self, before: &ScreenManager, told: Set<int>) -> bool {
        &&& self.sources().len() == before.sources().len()
        &&& forall|i: int|
            0 <= i < self.sources().len() && !told.contains(i) ==> #[trigger] self.sources()[i]
                == before.sources()[i]
    }

    /// Whether the scheduler has, since it was as `before`, issued exactly
    /// `commands`, in that order, and no screen but those that they went to
    /// has changed.
    pub open spec fn issued_since(&self, before: &ScreenManager, commands: Seq<Told>) -> bool {
        &&& self.issued() == before.issued() + commands
        &&& self.told_only(before, Set::new(|i: int| told_in(commands, i)))
    }

    /// Builds the scheduler over `screens`, in their order, from the key,
    /// the description and the enabled flag that each of them reports.
    pub fn new(screens: Vec<Box<dyn BasicScreen>>) -> (manager: ScreenManager)
        requires
            screens@.len() > 0,
        ensures
            manager.well_formed(),
            manager.sources() == screens@,
            manager.issued() == Seq::<Told>::empty(),
            manager@ == Schedule::initial(
                manager@.keys,
                manager@.descriptions,
                manager@.enabled,
            ),
    {
        let mut keys: Vec<String> = Vec::new();
        let mut descriptions: Vec<String> = Vec::new();
        let mut enabled: Vec<bool> = Vec::new();
        let mut i: usize = 0;
        while i < screens.len()
            invariant
                i <= screens@.len(),
                keys@.len() == i,
                descriptions@.len() == i,
                enabled@.len() == i,
            decreases screens@.len() - i,
        {
            keys.push(screens[i].key());
            descriptions.push(screens[i].description());
            enabled.push(screens[i].enabled());
            i = i + 1;
        }
        ScreenManager::assemble(screens, keys, descriptions, enabled)
    }

    /// Builds the scheduler over `screens` from keys, descriptions and
    /// enabled flags that are already at hand, one of each for each screen.
    /// The first enabled screen is active; the first screen where none is
    /// enabled.
    pub fn assemble(
        screens: Vec<Box<dyn BasicScreen>>,
        keys: Vec<String>,
        descriptions: Vec<String>,
        enabled: Vec<bool>,
    ) -> (manager: ScreenManager)
        requires
            screens@.len() > 0,
            keys@.len() == screens@.len(),
            descriptions@.len() == screens@.len(),
            enabled@.len() == screens@.len(),
        ensures
            manager.well_formed(),
            manager.sources() == screens@,
            manager.issued() == Seq::<Told>::empty(),
            manager@ == Schedule::initial(texts(keys@), texts(descriptions@), enabled@),
    {
        let current = match find_first_enabled(&enabled) {
            Some(index) => index,
            None => 0,
        };
        ScreenManager {
            screens,
            keys,
            descriptions,
            enabled,
            current,
            since: 0,
            last_screen: current,
            switch_in_progress: false,
            issued: Ghost(Seq::empty()),
        }
    }

    /// Position of the active screen, as it stands.
    pub fn current_index(&self) -> (index: usize)
        requires
            self.well_formed(),
        ensures
            index == self@.current,
            index < self.sources().len(),
    {
        self.current
    }

    /// Whether a short activation is in progress.
    pub fn switch_in_progress(&self) -> (switching: bool)
        ensures
            switching == self@.switch_in_progress,
    {
        self.switch_in_progress
    }

    /// Position of the screen to which a short activation reverts.
    pub fn last_screen(&self) -> (index: usize)
        ensures
            index == self@.last_screen,
    {
        self.last_screen
    }

    /// Tells the screen at `index` one command, and writes it down.
    fn tell(&mut self, index: usize, command: Command)
        requires
            old(self).well_formed(),
            index < old(self).sources().len(),
        ensures
            final(self).well_formed(),
            final(self)@ == old(self)@,
            final(self).issued_since(old(self), seq![Told { screen: index as int, command }]),
    {
        match command {
            Command::Update => self.screens[index].update(),
            Command::Start => self.screens[index].start(),
            Command::Stop => self.screens[index].stop(),
            Command::SetMode(mode) => self.screens[index].set_mode_for_short(mode),
            Command::SetStatus(status) => self.screens[index].set_status(status),
        }
        self.issued = Ghost(self.issued@.push(Told { screen: index as int, command }));
        proof {
            let one = seq![Told { screen: index as int, command }];
            assert(one[0].screen == index);
            assert(self.issued@ =~= old(self).issued@ + one);
        }
    }

    fn settle(&mut self, now: u64)
        requires
            old(self).well_formed(),
        ensures
            final(self).well_formed(),
            final(self).issued_since(old(self), old(self)@.told_by_current(now)),
            final(self)@ == old(self)@.current_screen(now),
    {
        if self.switch_in_progress && now >= self.since && now - self.since >= SHORT_ACTIVATION_MS {
            self.tell(self.current, Command::Update);
            self.current = self.last_screen;
            self.switch_in_progress = false;
        } else {
            self.tell(self.current, Command::Start);
        }
    }

    /// The active screen at `now`. A short activation that has run out
    /// ends here: its screen is updated once more and the screen from
    /// before it is active again. Otherwise the active screen is told to
    /// start.
    pub fn current_screen(&mut self, now: u64) -> (screen: &Box<dyn BasicScreen>)
        requires
            old(self).well_formed(),
        ensures
            final(self).well_formed(),
            final(self).issued_since(old(self), old(self)@.told_by_current(now)),
            final(self)@ == old(self)@.current_screen(now),
            *screen == final(self).sources()[final(self)@.current],
    {
        self.settle(now);
        &self.screens[self.current]
    }

    fn find_next_enabled_screen(&mut self)
        requires
            old(self).well_formed(),
        ensures
            final(self).well_formed(),
            final(self).issued_since(old(self), Seq::empty()),
            final(self)@ == (Schedule {
                current: next_enabled(old(self)@.enabled, old(self)@.current),
                ..old(self)@
            }),
    {
        self.current = find_next_enabled(&self.enabled, self.current);
    }

    fn find_previous_enabled_screen(&mut self)
        requires
            old(self).well_formed(),
        ensures
            final(self).well_formed(),
            final(self).issued_since(old(self), Seq::empty()),
            final(self)@ == (Schedule {
                current: previous_enabled(old(self)@.enabled, old(self)@.current),
                ..old(self)@
            }),
    {
        self.current = find_previous_enabled(&self.enabled, self.current);
    }

    /// Goes on to the next enabled screen, skipping disabled ones and
    /// wrapping round: the active screen is stopped, any short activation
    /// ends, and the screen that is then active is started. A short
    /// activation that has run out at `now` reverts first, so the step is
    /// taken from the screen it came from. Where no other screen is enabled
    /// the active one stays.
    pub fn next_screen(&mut self, now: u64)
        requires
            old(self).well_formed(),
        ensures
            final(self).well_formed(),
            final(self).issued_since(old(self), old(self)@.told_by_next(now)),
            final(self)@ == old(self)@.next_screen(now),
    {
        self.settle(now);
        let ghost settled = *self;
        self.tell(self.current, Command::Stop);
        self.switch_in_progress = false;
        self.find_next_enabled_screen();
        let ghost moved = *self;
        self.tell(self.current, Command::Start);
        proof {
            let first = old(self)@.told_by_current(now);
            let stop = seq![Told { screen: settled@.current, command: Command::Stop }];
            let start = seq![Told { screen: moved@.current, command: Command::Start }];
            lemma_issued_joins(old(self), &settled, &moved, first, stop);
            lemma_issued_joins(old(self), &moved, self, first + stop, start);
            assert(first + stop + start =~= old(self)@.told_by_next(now));
        }
    }

    /// Goes back to the enabled screen before, in the same way.
    pub fn previous_screen(&mut self, now: u64)
        requires
            old(self).well_formed(),
        ensures
            final(self).well_formed(),
            final(self).issued_since(old(self), old(self)@.told_by_previous(now)),
            final(self)@ == old(self)@.previous_screen(now),
    {
        self.settle(now);
        let ghost settled = *self;
        self.tell(self.current, Command::Stop);
        self.switch_in_progress = false;
        self.find_previous_enabled_screen();
        let ghost moved = *self;
        self.tell(self.current, Command::Start);
        proof {
            let first = old(self)@.told_by_current(now);
            let stop = seq![Told { screen: settled@.current, command: Command::Stop }];
            let start = seq![Told { screen: moved@.current, command: Command::Start }];
            lemma_issued_joins(old(self), &settled, &moved, first, stop);
            lemma_issued_joins(old(self), &moved, self, first + stop, start);
            assert(first + stop + start =~= old(self)@.told_by_previous(now));
        }
    }

    /// Has the active screen at `now` take in what its worker produced.
    pub fn update_current_screen(&mut self, now: u64)
        requires
            old(self).well_formed(),
        ensures
            final(self).well_formed(),
            final(self).issued_since(old(self), old(self)@.told_by_update(now)),
            final(self)@ == old(self)@.current_screen(now),
    {
        self.settle(now);
        let ghost settled = *self;
        self.tell(self.current, Command::Update);
        proof {
            lemma_issued_joins(
                old(self),
                &settled,
                self,
                old(self)@.told_by_current(now),
                seq![Told { screen: settled@.current, command: Command::Update }],
            );
        }
    }

    fn position(&self, key: &String) -> (found: Option<usize>)
        requires
            self.well_formed(),
        ensures
            match found {
                Some(index) => position_of(self@.keys, key@, 0) == Some(index as int) && index
                    < self.sources().len(),
                None => position_of(self@.keys, key@, 0) is None,
            },
    {
        let mut index: usize = 0;
        while index < self.keys.len()
            invariant
                position_of(self@.keys, key@, 0) == position_of(self@.keys, key@, index as int),
                self.well_formed(),
            decreases self.keys@.len() - index,
        {
            if self.keys[index] == *key {
                return Some(index);
            }
            index = index + 1;
        }
        None
    }

    /// Activates the screen `key` for a short while, in the sub-mode
    /// `mode`: it is active from `now` until `SHORT_ACTIVATION_MS` later.
    /// Where no short activation is in progress, the active screen is
    /// stopped and remembered as the one to come back to; where one is,
    /// the screen remembered then stays the one to come back to. The
    /// screen is given the sub-mode and started. Nothing happens where no
    /// screen has that key, or the first that has it is disabled.
    pub fn set_screen_for_short(&mut self, key: String, mode: u32, now: u64)
        requires
            old(self).well_formed(),
        ensures
            final(self).well_formed(),
            final(self).issued_since(old(self), old(self)@.told_by_short(key@, mode)),
            final(self)@ == old(self)@.set_screen_for_short(key@, now),
    {
        let index = match self.position(&key) {
            Some(index) => index,
            None => {
                return ;
            },
        };
        if !self.enabled[index] {
            return ;
        }
        self.since = now;
        if !self.switch_in_progress {
            self.tell(self.current, Command::Stop);
            self.last_screen = self.current;
        }
        let ghost stopped = *self;
        self.current = index;
        self.tell(index, Command::SetMode(mode));
        let ghost moded = *self;
        self.tell(index, Command::Start);
        self.switch_in_progress = true;
        proof {
            let stop = if old(self)@.switch_in_progress {
                Seq::<Told>::empty()
            } else {
                seq![Told { screen: old(self)@.current, command: Command::Stop }]
            };
            let mode_told = seq![Told { screen: index as int, command: Command::SetMode(mode) }];
            let start = seq![Told { screen: index as int, command: Command::Start }];
            lemma_issued_joins(old(self), &stopped, &moded, stop, mode_told);
            lemma_issued_joins(old(self), &moded, self, stop + mode_told, start);
            assert(stop + mode_told + start =~= old(self)@.told_by_short(key@, mode));
        }
    }

    /// Enables or disables the screens called `key`. Nothing happens where
    /// no screen has that key, or where disabling would leave no screen
    /// enabled. Otherwise a short activation in progress becomes permanent,
    /// each screen called `key` is told its new status, and where the
    /// active screen was disabled the scheduler goes on to the next enabled
    /// one.
    pub fn set_status_for_screen(&mut self, key: &String, status: bool, now: u64)
        requires
            old(self).well_formed(),
        ensures
            final(self).well_formed(),
            final(self).issued_since(old(self), old(self)@.told_by_status(key@, status, now)),
            final(self)@ == old(self)@.set_status_for_screen(key@, status, now),
    {
        if self.position(key).is_none() {
            return ;
        }
        if !status && !self.screen_deactivatable(key) {
            return ;
        }
        self.switch_in_progress = false;
        let mut i: usize = 0;
        while i < self.keys.len()
            invariant
                self.well_formed(),
                self.issued_since(
                    old(self),
                    status_commands(old(self)@.keys, key@, status, i as int),
                ),
                i <= self.keys@.len(),
                self@.keys == old(self)@.keys,
                self@.enabled.len() == old(self)@.enabled.len(),
                forall|k: int|
                    0 <= k < i ==> self@.enabled[k] == old(self)@.flags_with(key@, status)[k],
                forall|k: int| i <= k < self@.enabled.len() ==> self@.enabled[k] == old(self)@.enabled[k],
                self@ == (Schedule { enabled: self@.enabled, switch_in_progress: false, ..old(self)@ }),
            decreases self.keys@.len() - i,
        {
            if self.keys[i] == *key {
                self.enabled.set(i, status);
                let ghost flagged = *self;
                self.tell(i, Command::SetStatus(status));
                proof {
                    let so_far = status_commands(old(self)@.keys, key@, status, i as int);
                    let one = seq![Told { screen: i as int, command: Command::SetStatus(status) }];
                    lemma_issued_joins(old(self), &flagged, self, so_far, one);
                    assert(so_far + one =~= so_far.push(one[0]));
                }
            }
            i = i + 1;
        }
        assert(self@.enabled =~= old(self)@.flags_with(key@, status));
        if !status && self.keys[self.current] == *key {
            let ghost changed = *self;
            self.next_screen(now);
            proof {
                lemma_issued_joins(
                    old(self),
                    &changed,
                    self,
                    status_commands(old(self)@.keys, key@, status, old(self)@.keys.len() as int),
                    changed@.told_by_next(now),
                );
            }
        }
    }

    /// Whether the screens called `key` may be disabled: some other screen
    /// is enabled.
    pub fn screen_deactivatable(&self, key: &String) -> (allowed: bool)
        requires
            self.well_formed(),
        ensures
            allowed == self@.screen_deactivatable(key@),
    {
        let mut i: usize = 0;
        while i < self.keys.len()
            invariant
                self.well_formed(),
                i <= self.keys@.len(),
                forall|k: int| 0 <= k < i ==> !(self@.enabled[k] && #[trigger] self@.keys[k] != key@),
            decreases self.keys@.len() - i,
        {
            if self.enabled[i] && self.keys[i] != *key {
                assert(self@.enabled[i as int] && self@.keys[i as int] != key@);
                return true;
            }
            i = i + 1;
        }
        false
    }

    /// Description, key and enabled flag of every screen, in order.
    pub fn descriptions_and_keys_and_state(&self) -> (listing: Vec<(String, String, bool)>)
        requires
            self.well_formed(),
        ensures
            listing@.len() == self@.keys.len(),
            forall|i: int|
                0 <= i < listing@.len() ==> {
                    &&& (#[trigger] listing@[i]).0@ == self@.descriptions[i]
                    &&& listing@[i].1@ == self@.keys[i]
                    &&& listing@[i].2 == self@.enabled[i]
                },
    {
        let mut listing: Vec<(String, String, bool)> = Vec::new();
        let mut i: usize = 0;
        while i < self.keys.len()
            invariant
                self.well_formed(),
                i <= self.keys@.len(),
                listing@.len() == i,
                forall|k: int|
                    0 <= k < i ==> {
                        &&& (#[trigger] listing@[k]).0@ == self@.descriptions[k]
                        &&& listing@[k].1@ == self@.keys[k]
                        &&& listing@[k].2 == self@.enabled[k]
                    },
            decreases self.keys@.len() - i,
        {
            listing.push((self.descriptions[i].clone(), self.keys[i].clone(), self.enabled[i]));
            i = i + 1;
        }
        listing
    }
}

/// Commands issued one run after the other were issued one after the other.
proof fn lemma_issued_joins(
    before: &ScreenManager,
    between: &ScreenManager,
    after: &ScreenManager,
    first: Seq<Told>,
    second: Seq<Told>,
)
    requires
        between.issued_since(before, first),
        after.issued_since(between, second),
    ensures
        after.issued_since(before, first + second),
{
    assert(after.issued() =~= before.issued() + (first + second));
    assert forall|i: int|
        0 <= i < after.sources().len() && !told_in(first + second, i) implies #[trigger] after.sources()[i]
        == before.sources()[i] by {
        if told_in(first, i) {
            let k = choose|k: int| 0 <= k < first.len() && (#[trigger] first[k]).screen == i;
            assert((first + second)[k].screen == i);
        }
        if told_in(second, i) {
            let k = choose|k: int| 0 <= k < second.len() && (#[trigger] second[k]).screen == i;
            assert((first + second)[first.len() + k].screen == i);
        }
    }
}

/// Changing the status of a screen that the scheduler does not know
/// changes nothing, whatever the status: the flags, the active screen and
/// a short activation in progress stay as they are, and no screen is told
/// anything.
pub proof fn lemma_unknown_screen_changes_nothing(
    schedule: Schedule,
    key: Seq<char>,
    status: bool,
    now: u64,
)
    requires
        forall|i: int| 0 <= i < schedule.keys.len() ==> #[trigger] schedule.keys[i] != key,
    ensures
        schedule.set_status_for_screen(key, status, now) == schedule,
        schedule.told_by_status(key, status, now) == Seq::<Told>::empty(),
{
    lemma_position_of(schedule.keys, key, 0);
}

/// Disabling the only enabled screen is refused: the schedule stays as it
/// is, the screen stays enabled, and no screen is told anything.
pub proof fn lemma_sole_enabled_screen_stays(schedule: Schedule, index: int, now: u64)
    requires
        schedule.well_formed(),
        schedule.sole_enabled(index),
    ensures
        schedule.set_status_for_screen(schedule.keys[index], false, now) == schedule,
        schedule.set_status_for_screen(schedule.keys[index], false, now).enabled[index],
        schedule.told_by_status(schedule.keys[index], false, now) == Seq::<Told>::empty(),
{
    let key = schedule.keys[index];
    assert forall|i: int| 0 <= i < schedule.keys.len() implies !(schedule.enabled[i]
        && #[trigger] schedule.keys[i] != key) by {
    }
}

/// No disabling leaves every screen disabled: where a screen was enabled
/// before, one is enabled after, whichever key was named.
pub proof fn lemma_disabling_leaves_one_enabled(schedule: Schedule, key: Seq<char>, now: u64)
    requires
        schedule.well_formed(),
        schedule.any_enabled(),
    ensures
        schedule.set_status_for_screen(key, false, now).any_enabled(),
{
    let after = schedule.set_status_for_screen(key, false, now);
    if schedule.screen_deactivatable(key) {
        let other = choose|i: int|
            0 <= i < schedule.keys.len() && schedule.enabled[i] && #[trigger] schedule.keys[i]
                != key;
        assert(after.enabled[other]);
    }
}

/// A short activation reverts by itself: while it lasts the named screen
/// is active, and once it has run out, asking for the active screen gives
/// the one that was active before.
pub proof fn lemma_short_activation_reverts(
    schedule: Schedule,
    key: Seq<char>,
    now: u64,
    meanwhile: u64,
    later: u64,
)
    requires
        schedule.well_formed(),
        !schedule.switch_in_progress,
        now <= meanwhile < now + SHORT_ACTIVATION_MS <= later,
    ensures
        schedule.set_screen_for_short(key, now).current_screen(later).current == schedule.current,
        !schedule.set_screen_for_short(key, now).current_screen(later).switch_in_progress,
        schedule.set_screen_for_short(key, now).current_screen(meanwhile)
            == schedule.set_screen_for_short(key, now),
{
}

proof fn lemma_next_times(schedule: Schedule, times: nat, now: u64)
    requires
        schedule.well_formed(),
        !schedule.expired(now),
    ensures
        schedule.next_times(times, now).enabled == schedule.enabled,
        schedule.next_times(times, now).current == rotate(schedule.enabled, schedule.current, times),
        !schedule.next_times(times, now).expired(now),
    decreases times,
{
    if times > 0 {
        lemma_next_times(schedule, (times - 1) as nat, now);
    }
}

/// Rotation is circular over the enabled screens: with an enabled screen
/// active and no short activation run out, going on to the next screen as
/// many times as there are enabled screens leads back to the active one.
pub proof fn lemma_rotation_returns(schedule: Schedule, now: u64)
    requires
        schedule.well_formed(),
        schedule.enabled[schedule.current],
        !schedule.expired(now),
    ensures
        schedule.next_times(enabled_total(schedule.enabled), now).current == schedule.current,
{
    lemma_next_times(schedule, enabled_total(schedule.enabled), now);
    lemma_rotation_is_circular(schedule.enabled, schedule.current);
}

/// A schedule built over screens of which one is enabled shows an enabled
/// screen: the first of them.
pub proof fn lemma_initial_schedule_is_sound(
    keys: Seq<Seq<char>>,
    descriptions: Seq<Seq<char>>,
    enabled: Seq<bool>,
)
    requires
        keys.len() > 0,
        descriptions.len() == keys.len(),
        enabled.len() == keys.len(),
        exists|i: int| 0 <= i < enabled.len() && #[trigger] enabled[i],
    ensures
        Schedule::initial(keys, descriptions, enabled).sound(),
        forall|i: int|
            0 <= i < Schedule::initial(keys, descriptions, enabled).current ==> !#[trigger] enabled[i],
{
    lemma_first_enabled(enabled, 0);
}

/// The active screen is always one that may be shown. Whatever is asked
/// of a schedule whose active screen is enabled, the active screen is
/// enabled afterwards: rotation only stops at enabled screens, a short
/// activation only switches to one and comes back to one, and disabling
/// the active screen moves on to another.
pub proof fn lemma_active_screen_stays_enabled(
    schedule: Schedule,
    key: Seq<char>,
    status: bool,
    now: u64,
)
    requires
        schedule.sound(),
    ensures
        schedule.current_screen(now).sound(),
        schedule.next_screen(now).sound(),
        schedule.previous_screen(now).sound(),
        schedule.set_screen_for_short(key, now).sound(),
        schedule.set_status_for_screen(key, status, now).sound(),
{
    let settled = schedule.current_screen(now);
    lemma_next_enabled_skips_disabled(settled.enabled, settled.current);
    lemma_previous_enabled_skips_disabled(settled.enabled, settled.current);
    lemma_position_of(schedule.keys, key, 0);
    let changed = Schedule {
        enabled: schedule.flags_with(key, status),
        switch_in_progress: false,
        ..schedule
    };
    if status || schedule.screen_deactivatable(key) {
        if !status && schedule.keys[schedule.current] == key {
            let other = choose|i: int|
                0 <= i < schedule.keys.len() && schedule.enabled[i] && #[trigger] schedule.keys[i]
                    != key;
            assert(changed.enabled[other]);
            lemma_next_enabled_skips_disabled(changed.enabled, changed.current);
        }
    }
}

/// What `position_of` finds holds the key and lies within the list.
pub proof fn lemma_position_of(keys: Seq<Seq<char>>, key: Seq<char>, from: int)
    requires
        0 <= from,
    ensures
        match position_of(keys, key, from) {
            Some(found) => {
                &&& from <= found < keys.len()
                &&& keys[found] == key
                &&& forall|i: int| from <= i < found ==> #[trigger] keys[i] != key
            },
            None => forall|i: int| from <= i < keys.len() ==> #[trigger] keys[i] != key,
        },
    decreases keys.len() - from,
{
    if from < keys.len() && keys[from] != key {
        lemma_position_of(keys, key, from + 1);
    }
}

} // verus!
