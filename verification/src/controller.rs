//! The overlay's state machine.
//!
//! A `Scratchpad` owns one window of a program that it has the host start on
//! demand. It never talks to the host itself: each entry point takes what the
//! host reports, moves to the next state and returns the commands that the
//! host is to carry out, in order.

use crate::binary32::{lemma_round24_exact, round24, Binary32};
use crate::error::Error;
use crate::geometry::{anchored_start, lemma_anchored_within, Anchor, Region};
use vstd::prelude::*;

verus! {

/// The host's name for a window.
pub type WinId = u32;

/// What the overlay asks of the host.
#[derive(Debug, Clone, Copy, PartialEq, Eq)]
pub enum Command {
    /// Start the program; nothing comes back.
    Spawn(&'static str),
    /// Keep the window out of the tiling layout.
    MarkExternallyManaged(WinId),
    /// Show the window.
    Show(WinId),
    /// Hide the window.
    Hide(WinId),
    /// Move and resize the window.
    Position(WinId, Region),
}

/// The four states of an overlay.
#[derive(Debug, Clone, Copy, PartialEq, Eq, Structural)]
pub enum State {
    /// No window, and none asked for.
    Empty,
    /// The program was started and its window has not appeared yet.
    Pending,
    /// The window exists and is hidden.
    Hidden(WinId),
    /// The window exists and is shown.
    Visible(WinId),
}

impl State {
    /// The window that the overlay holds, if any.
    pub open spec fn window(self) -> Option<WinId> {
        match self {
            State::Empty | State::Pending => None,
            State::Hidden(id) | State::Visible(id) => Some(id),
        }
    }

    /// The state after a toggle.
    pub open spec fn toggled(self) -> State {
        match self {
            State::Empty | State::Pending => State::Pending,
            State::Hidden(id) => State::Visible(id),
            State::Visible(id) => State::Hidden(id),
        }
    }

    /// The state after the host has created the window `id`: an overlay that
    /// waits for its window takes it and shows it, any other is unmoved.
    pub open spec fn created(self, id: WinId) -> State {
        if self == State::Pending {
            State::Visible(id)
        } else {
            self
        }
    }

    /// The state after the host has removed the window `id`: an overlay that
    /// holds this window is empty again, any other is unmoved.
    pub open spec fn removed(self, id: WinId) -> State {
        if self.window() == Some(id) {
            State::Empty
        } else {
            self
        }
    }
}

/// A toggleable overlay: the program to start, the share of the screen that
/// its window takes, where the window is anchored, and what is known of the
/// window so far.
#[derive(Debug)]
pub struct Scratchpad {
    client: Option<WinId>,
    pending: bool,
    visible: bool,
    prog: &'static str,
    w: Binary32,
    h: Binary32,
    anchor: Anchor,
}

impl Scratchpad {
    /// The window that the overlay holds, if any.
    pub closed spec fn spec_client(&self) -> Option<WinId> {
        self.client
    }

    /// Whether the program was started and its window has not appeared yet.
    pub closed spec fn spec_is_pending(&self) -> bool {
        self.pending
    }

    /// Whether the window is shown.
    pub closed spec fn spec_is_visible(&self) -> bool {
        self.visible
    }

    /// The program that the overlay starts.
    pub closed spec fn spec_prog(&self) -> &'static str {
        self.prog
    }

    /// The share of the screen's width that the window takes.
    pub closed spec fn spec_width(&self) -> Binary32 {
        self.w
    }

    /// The share of the screen's height that the window takes.
    pub closed spec fn spec_height(&self) -> Binary32 {
        self.h
    }

    /// Where the window is anchored.
    pub closed spec fn spec_anchor(&self) -> Anchor {
        self.anchor
    }

    /// The shares lie between zero and one, the anchor is sound, an overlay
    /// that waits for its window holds none, and a window that is shown
    /// exists. This holds of every overlay that the program holds.
    #[verifier::type_invariant]
    pub open spec fn wf(self) -> bool {
        &&& self.width().is_unit_fraction()
        &&& self.height().is_unit_fraction()
        &&& self.anchor().wf()
        &&& self.is_pending() ==> self.client() is None
        &&& self.is_visible() ==> self.client() is Some
    }

    /// Which of the four states the overlay is in.
    pub open spec fn spec_state(&self) -> State {
        match self.client() {
            Some(id) => if self.is_visible() {
                State::Visible(id)
            } else {
                State::Hidden(id)
            },
            None => if self.is_pending() {
                State::Pending
            } else {
                State::Empty
            },
        }
    }

    /// Whether `other` starts the same program, takes the same share of the
    /// screen and has the same anchor.
    pub open spec fn same_config(self, other: Scratchpad) -> bool {
        &&& self.prog() == other.prog()
        &&& self.width() == other.width()
        &&& self.height() == other.height()
        &&& self.anchor() == other.anchor()
    }

    /// Width and height of the window on `screen`, in pixels.
    pub open spec fn size_on(self, screen: Region) -> (u32, u32) {
        (self.width().scaled(screen.w), self.height().scaled(screen.h))
    }

    /// Whether the window can be placed on `screen`.
    pub open spec fn placeable(self, screen: Region) -> bool {
        self.anchor().placeable(screen, self.size_on(screen).0, self.size_on(screen).1)
    }

    /// Where the window goes on `screen`.
    pub open spec fn position(self, screen: Region) -> Region
        recommends
            self.placeable(screen),
    {
        self.anchor().placed(screen, self.size_on(screen).0, self.size_on(screen).1)
    }

    /// Whether `next` is this overlay in the state `state`: sound, and with
    /// nothing but the state changed.
    pub open spec fn moves_to(self, next: Scratchpad, state: State) -> bool {
        &&& next.wf()
        &&& next.same_config(self)
        &&& next.state() == state
    }

    /// What a toggle asks of the host: an empty overlay has its program
    /// started, one that waits for its window asks nothing, a hidden window is
    /// shown and put in its place on the active screen, a shown window is hidden.
    pub open spec fn toggle_commands(self, active_screen: Region) -> Seq<Command> {
        match self.state() {
            State::Empty => seq![Command::Spawn(self.prog())],
            State::Pending => seq![],
            State::Hidden(id) => seq![
                Command::Show(id),
                Command::Position(id, self.position(active_screen)),
            ],
            State::Visible(id) => seq![Command::Hide(id)],
        }
    }

    /// What the overlay asks of the host when the window `id` has been
    /// created: an overlay that waits for its window has it kept out of the
    /// layout, shown and put in its place on the active screen, any other asks
    /// nothing.
    pub open spec fn new_client_commands(self, id: WinId, active_screen: Region) -> Seq<Command> {
        if self.state() == State::Pending {
            seq![
                Command::MarkExternallyManaged(id),
                Command::Show(id),
                Command::Position(id, self.position(active_screen)),
            ]
        } else {
            seq![]
        }
    }

    /// What the overlay asks of the host when the layout has been applied to a
    /// screen: a shown window is put back in its place, if the host could tell
    /// the screen's region, and shown again; otherwise nothing.
    pub open spec fn layout_commands(self, screen: Option<Region>) -> Seq<Command> {
        match (self.state(), screen) {
            (State::Visible(id), Some(region)) => seq![
                Command::Position(id, self.position(region)),
                Command::Show(id),
            ],
            (State::Visible(id), None) => seq![Command::Show(id)],
            _ => seq![],
        }
    }

    /// An overlay for the program `prog` that takes the shares `w` and `h` of
    /// the screen's width and height and is placed by `anchor`. It starts out
    /// empty.
    ///
    /// Fails with `InvalidFraction` when `w` or `h` is not a number between
    /// zero and one.
    pub fn new(prog: &'static str, w: Binary32, h: Binary32, anchor: Anchor) -> (result: Result<
        Scratchpad,
        Error,
    >)
        ensures
            w.is_unit_fraction() && h.is_unit_fraction() ==> result is Ok,
            result matches Ok(scratchpad) ==> {
                &&& scratchpad.wf()
                &&& scratchpad.state() == State::Empty
                &&& scratchpad.prog() == prog
                &&& scratchpad.width() == w
                &&& scratchpad.height() == h
                &&& scratchpad.anchor() == anchor
            },
            result matches Err(error) ==> {
                &&& error == Error::InvalidFraction
                &&& !(w.is_unit_fraction() && h.is_unit_fraction())
            },
    {
        if !w.in_unit_interval() || !h.in_unit_interval() {
            return Err(Error::InvalidFraction);
        }
        proof {
            use_type_invariant(&anchor);
        }
        Ok(Scratchpad { client: None, pending: false, visible: false, prog, w, h, anchor })
    }

    /// Whether the window can be placed on `screen`.
    pub fn can_place(&self, screen: Region) -> (fits: bool)
        ensures
            fits == self.placeable(screen),
    {
        proof {
            use_type_invariant(self);
        }
        let w = self.w.scale(screen.w);
        let h = self.h.scale(screen.h);
        self.anchor.can_place(screen, w, h)
    }

    /// Where the window goes on `screen`: it takes the overlay's shares of the
    /// screen's width and height and is placed by the anchor.
    pub fn get_position(&self, screen: Region) -> (region: Region)
        requires
            self.placeable(screen),
        ensures
            region == self.position(screen),
            region.w == self.width().scaled(screen.w),
            region.h == self.height().scaled(screen.h),
            region.x == anchored_start(
                self.anchor().horizontal(),
                screen.x as int,
                screen.w as int,
                region.w as int,
            ) + self.anchor().offset().0,
            region.y == anchored_start(
                self.anchor().vertical(),
                screen.y as int,
                screen.h as int,
                region.h as int,
            ) + self.anchor().offset().1,
    {
        proof {
            use_type_invariant(self);
        }
        let w = self.w.scale(screen.w);
        let h = self.h.scale(screen.h);
        self.anchor.place(screen, w, h)
    }

    /// Shows the hidden window `id` and puts it in its place on `screen`.
    fn show_client(&mut self, id: WinId, screen: Region, commands: &mut Vec<Command>)
        requires
            old(self).state() == State::Hidden(id),
            old(self).placeable(screen),
        ensures
            final(self).same_config(*old(self)),
            final(self).state() == State::Visible(id),
            final(commands)@ == old(commands)@ + seq![
                Command::Show(id),
                Command::Position(id, old(self).position(screen)),
            ],
    {
        proof {
            use_type_invariant(&*self);
        }
        self.visible = true;
        commands.push(Command::Show(id));
        let region = self.get_position(screen);
        commands.push(Command::Position(id, region));
    }

    /// Show or hide the window. If there is no window, have the program
    /// started, unless that was done already and its window is still awaited.
    /// A window that is shown is put in its place on `active_screen`.
    pub fn toggle(&mut self, active_screen: Region) -> (commands: Vec<Command>)
        requires
            old(self).state() is Hidden ==> old(self).placeable(active_screen),
        ensures
            old(self).moves_to(*final(self), old(self).state().toggled()),
            commands@ == old(self).toggle_commands(active_screen),
    {
        proof {
            use_type_invariant(&*self);
        }
        let mut commands: Vec<Command> = Vec::new();
        match self.client {
            None => {
                if !self.pending {
                    self.pending = true;
                    commands.push(Command::Spawn(self.prog));
                }
            },
            Some(id) => {
                if self.visible {
                    self.visible = false;
                    commands.push(Command::Hide(id));
                } else {
                    self.show_client(id, active_screen, &mut commands);
                }
            },
        }
        proof {
            use_type_invariant(&*self);
        }
        commands
    }

    /// The host has created the window `id`. An overlay that waits for its
    /// window takes this one, keeps it out of the layout and shows it on
    /// `active_screen`; any other lets it pass.
    pub fn new_client(&mut self, id: WinId, active_screen: Region) -> (commands: Vec<Command>)
        requires
            old(self).state() == State::Pending ==> old(self).placeable(active_screen),
        ensures
            old(self).moves_to(*final(self), old(self).state().created(id)),
            commands@ == old(self).new_client_commands(id, active_screen),
    {
        proof {
            use_type_invariant(&*self);
        }
        let mut commands: Vec<Command> = Vec::new();
        if self.pending && self.client.is_none() {
            self.pending = false;
            self.client = Some(id);
            commands.push(Command::MarkExternallyManaged(id));
            self.show_client(id, active_screen, &mut commands);
        }
        proof {
            use_type_invariant(&*self);
        }
        commands
    }

    /// The host has removed the window `id`. An overlay that holds this window
    /// is empty again; any other is unmoved.
    pub fn remove_client(&mut self, id: WinId)
        ensures
            old(self).moves_to(*final(self), old(self).state().removed(id)),
    {
        proof {
            use_type_invariant(&*self);
        }
        match self.client {
            Some(client) => {
                if id == client {
                    self.visible = false;
                    self.client = None;
                }
            },
            None => {},
        }
        proof {
            use_type_invariant(&*self);
        }
    }

    /// The host has applied its layout to a screen, whose region is `screen`
    /// if the host could tell it. A shown window is put back in its place and
    /// shown again.
    pub fn layout_applied(&self, screen: Option<Region>) -> (commands: Vec<Command>)
        requires
            self.state() is Visible && screen is Some ==> self.placeable(screen->0),
        ensures
            commands@ == self.layout_commands(screen),
    {
        proof {
            use_type_invariant(self);
        }
        let mut commands: Vec<Command> = Vec::new();
        match self.client {
            None => {},
            Some(id) => {
                if self.visible {
                    if let Some(region) = screen {
                        commands.push(Command::Position(id, self.get_position(region)));
                    }
                    commands.push(Command::Show(id));
                }
            },
        }
        commands
    }

    /// The window that the overlay holds, if any.
    #[verifier::when_used_as_spec(spec_client)]
    pub fn client(&self) -> (client: Option<WinId>)
        ensures
            client == self.client(),
    {
        self.client
    }

    /// Whether the program was started and its window has not appeared yet.
    #[verifier::when_used_as_spec(spec_is_pending)]
    pub fn is_pending(&self) -> (pending: bool)
        ensures
            pending == self.is_pending(),
    {
        self.pending
    }

    /// Whether the window is shown.
    #[verifier::when_used_as_spec(spec_is_visible)]
    pub fn is_visible(&self) -> (visible: bool)
        ensures
            visible == self.is_visible(),
    {
        self.visible
    }

    /// The program that the overlay starts.
    #[verifier::when_used_as_spec(spec_prog)]
    pub fn prog(&self) -> (prog: &'static str)
        ensures
            prog == self.prog(),
    {
        self.prog
    }

    /// The share of the screen's width that the window takes.
    #[verifier::when_used_as_spec(spec_width)]
    pub fn width(&self) -> (width: Binary32)
        ensures
            width == self.width(),
    {
        self.w
    }

    /// The share of the screen's height that the window takes.
    #[verifier::when_used_as_spec(spec_height)]
    pub fn height(&self) -> (height: Binary32)
        ensures
            height == self.height(),
    {
        self.h
    }

    /// Where the window is anchored.
    #[verifier::when_used_as_spec(spec_anchor)]
    pub fn anchor(&self) -> (anchor: Anchor)
        ensures
            anchor == self.anchor(),
    {
        self.anchor
    }

    /// Which of the four states the overlay is in.
    #[verifier::when_used_as_spec(spec_state)]
    pub fn state(&self) -> (state: State)
        ensures
            state == self.state(),
    {
        match self.client {
            Some(id) => if self.visible {
                State::Visible(id)
            } else {
                State::Hidden(id)
            },
            None => if self.pending {
                State::Pending
            } else {
                State::Empty
            },
        }
    }
}

/// Whether `run` is what an overlay goes through while it is toggled again
/// and again and the host reports nothing: each overlay but the first is what
/// a toggle makes of the one before.
pub open spec fn is_toggle_run(run: Seq<Scratchpad>) -> bool {
    &&& run.len() > 0
    &&& run[0].wf()
    &&& forall|i: int|
        0 <= i < run.len() - 1 ==> (#[trigger] run[i]).moves_to(
            run[i + 1],
            run[i].state().toggled(),
        )
}

/// However often an empty overlay is toggled before its window appears, its
/// program is started once: the first toggle asks for that and nothing else,
/// and every later toggle finds the overlay waiting and asks nothing.
pub proof fn lemma_toggles_spawn_once(run: Seq<Scratchpad>)
    requires
        is_toggle_run(run),
        run[0].state() == State::Empty,
    ensures
        forall|screen: Region|
            #[trigger] run[0].toggle_commands(screen) == seq![Command::Spawn(run[0].prog())],
        forall|i: int| 1 <= i < run.len() ==> (#[trigger] run[i]).state() == State::Pending,
        forall|i: int, screen: Region|
            1 <= i < run.len() ==> #[trigger] run[i].toggle_commands(screen) == Seq::<
                Command,
            >::empty(),
{
    assert forall|i: int| 1 <= i < run.len() implies (#[trigger] run[i]).state()
        == State::Pending by {
        lemma_run_waits(run, i);
    }
}

/// Once the overlay holds a window, toggles never start the program again:
/// the overlay keeps that window, and each toggle only shows or hides it.
pub proof fn lemma_toggles_keep_window(run: Seq<Scratchpad>, id: WinId)
    requires
        is_toggle_run(run),
        run[0].state().window() == Some(id),
    ensures
        forall|i: int| 0 <= i < run.len() ==> (#[trigger] run[i]).state().window() == Some(id),
        forall|i: int, screen: Region, k: int|
            0 <= i < run.len() && 0 <= k < run[i].toggle_commands(screen).len() ==> !(
            #[trigger] run[i].toggle_commands(screen)[k] is Spawn),
{
    assert forall|i: int| 0 <= i < run.len() implies (#[trigger] run[i]).state().window()
        == Some(id) by {
        lemma_run_holds(run, id, i);
    }
}

/// After the first toggle of an empty overlay, the overlay waits.
proof fn lemma_run_waits(run: Seq<Scratchpad>, i: int)
    requires
        is_toggle_run(run),
        run[0].state() == State::Empty,
        1 <= i < run.len(),
    ensures
        run[i].state() == State::Pending,
    decreases i,
{
    assert(run[i - 1].moves_to(run[i], run[i - 1].state().toggled()));
    if i > 1 {
        lemma_run_waits(run, i - 1);
    }
}

/// A toggle leaves the overlay the window that it holds.
proof fn lemma_run_holds(run: Seq<Scratchpad>, id: WinId, i: int)
    requires
        is_toggle_run(run),
        run[0].state().window() == Some(id),
        0 <= i < run.len(),
    ensures
        run[i].state().window() == Some(id),
    decreases i,
{
    if i > 0 {
        assert(run[i - 1].moves_to(run[i], run[i - 1].state().toggled()));
        lemma_run_holds(run, id, i - 1);
    }
}

/// Whether the rectangle of `w` by `h` pixels, anchored by `anchor` and not yet
/// moved by the offset, lies within `screen`.
pub open spec fn anchored_within(anchor: Anchor, screen: Region, w: int, h: int) -> bool {
    let x = anchored_start(anchor.horizontal(), screen.x as int, screen.w as int, w);
    let y = anchored_start(anchor.vertical(), screen.y as int, screen.h as int, h);
    &&& screen.x <= x
    &&& x + w <= screen.x + screen.w
    &&& screen.y <= y
    &&& y + h <= screen.y + screen.h
}

/// On an axis whose extent single precision holds without rounding up, the
/// window is no larger than the screen.
pub proof fn lemma_size_within_screen(overlay: Scratchpad, screen: Region)
    requires
        overlay.wf(),
    ensures
        round24(screen.w as nat) <= screen.w ==> overlay.size_on(screen).0 <= screen.w,
        round24(screen.h as nat) <= screen.h ==> overlay.size_on(screen).1 <= screen.h,
{
    overlay.width().lemma_scaled_at_most_rounded(screen.w);
    overlay.height().lemma_scaled_at_most_rounded(screen.h);
}

/// Before the offset moves it, a window that is no larger than the screen lies
/// within the screen.
pub proof fn lemma_region_within_screen(overlay: Scratchpad, screen: Region)
    requires
        overlay.wf(),
        overlay.size_on(screen).0 <= screen.w,
        overlay.size_on(screen).1 <= screen.h,
    ensures
        anchored_within(
            overlay.anchor(),
            screen,
            overlay.size_on(screen).0 as int,
            overlay.size_on(screen).1 as int,
        ),
{
    lemma_anchored_within(
        overlay.anchor().horizontal(),
        screen.x as int,
        screen.w as int,
        overlay.size_on(screen).0 as int,
    );
    lemma_anchored_within(
        overlay.anchor().vertical(),
        screen.y as int,
        screen.h as int,
        overlay.size_on(screen).1 as int,
    );
}

/// On a screen of at most `2^24` pixels each way, the window lies within the
/// screen before the offset moves it.
pub proof fn lemma_region_within_common_screen(overlay: Scratchpad, screen: Region)
    requires
        overlay.wf(),
        screen.w <= 0x100_0000,
        screen.h <= 0x100_0000,
    ensures
        anchored_within(
            overlay.anchor(),
            screen,
            overlay.size_on(screen).0 as int,
            overlay.size_on(screen).1 as int,
        ),
{
    lemma_round24_exact(screen.w as nat);
    lemma_round24_exact(screen.h as nat);
    lemma_size_within_screen(overlay, screen);
    lemma_region_within_screen(overlay, screen);
}

/// On a screen of at most `2^24` pixels each way whose far edges, moved by the
/// offset, are within `u32::MAX`, the window can be placed.
pub proof fn lemma_placeable_on_common_screen(overlay: Scratchpad, screen: Region)
    requires
        overlay.wf(),
        screen.w <= 0x100_0000,
        screen.h <= 0x100_0000,
        screen.x + screen.w + overlay.anchor().offset().0 <= u32::MAX,
        screen.y + screen.h + overlay.anchor().offset().1 <= u32::MAX,
    ensures
        overlay.placeable(screen),
{
    lemma_region_within_common_screen(overlay, screen);
}

} // verus!
