//! The setup menu: the roster items, the selection cursor, the pools of
//! unassigned colours and key bindings, and the three focused editors
//! (name, keys, colour) as a closed tagged union.

use vstd::prelude::*;

use crate::curve::{Curve, MoveKeys};
use crate::player::Player;
use crate::point::Point;

verus! {

/// A key binding editor slot that has not received a key yet.
pub const UNSET_KEY: u32 = 0;

/// A name buffer accepts appends while it has at most this many characters.
pub const NAME_CAP: usize = 20;

/// One tick's edge-triggered menu events, collected by the input layer.
pub struct MenuInput {
    pub up: bool,
    pub down: bool,
    pub left: bool,
    pub right: bool,
    /// The confirm key was just pressed.
    pub confirm: bool,
    /// The cancel key was just pressed.
    pub cancel: bool,
    pub backspace: bool,
    /// Text typed this tick, if any.
    pub typed: Option<String>,
    /// The key code just pressed this tick, if any, for binding editing.
    pub pressed_key: Option<u32>,
}

/// Which column of a player's row the roster cursor is on.
#[derive(Clone, Copy, Debug, PartialEq, Eq, Structural)]
pub enum PlayerConfigFocus {
    Name,
    Color,
    Keys,
    Remove,
}

impl PlayerConfigFocus {
    /// The column to the right, wrapping around.
    pub open spec fn spec_next(self) -> PlayerConfigFocus {
        match self {
            PlayerConfigFocus::Name => PlayerConfigFocus::Keys,
            PlayerConfigFocus::Keys => PlayerConfigFocus::Color,
            PlayerConfigFocus::Color => PlayerConfigFocus::Remove,
            PlayerConfigFocus::Remove => PlayerConfigFocus::Name,
        }
    }

    /// The column to the left, wrapping around.
    pub open spec fn spec_previous(self) -> PlayerConfigFocus {
        match self {
            PlayerConfigFocus::Name => PlayerConfigFocus::Remove,
            PlayerConfigFocus::Keys => PlayerConfigFocus::Name,
            PlayerConfigFocus::Color => PlayerConfigFocus::Keys,
            PlayerConfigFocus::Remove => PlayerConfigFocus::Color,
        }
    }

    /// The column to the right, wrapping around.
    pub fn next(&self) -> (r: PlayerConfigFocus)
        ensures
            r == self.spec_next(),
    {
        match self {
            PlayerConfigFocus::Name => PlayerConfigFocus::Keys,
            PlayerConfigFocus::Keys => PlayerConfigFocus::Color,
            PlayerConfigFocus::Color => PlayerConfigFocus::Remove,
            PlayerConfigFocus::Remove => PlayerConfigFocus::Name,
        }
    }

    /// The column to the left, wrapping around.
    pub fn previous(&self) -> (r: PlayerConfigFocus)
        ensures
            r == self.spec_previous(),
    {
        match self {
            PlayerConfigFocus::Name => PlayerConfigFocus::Remove,
            PlayerConfigFocus::Keys => PlayerConfigFocus::Name,
            PlayerConfigFocus::Color => PlayerConfigFocus::Keys,
            PlayerConfigFocus::Remove => PlayerConfigFocus::Color,
        }
    }
}

/// Stepping right then left (or left then right) lands on the starting
/// column: the two cursor moves are inverses.
pub proof fn lemma_focus_navigation_inverse(f: PlayerConfigFocus)
    ensures
        f.spec_next().spec_previous() == f,
        f.spec_previous().spec_next() == f,
{
}

/// The editable facts about one player: the roster slot it owns, the
/// name, colour and key bindings, and which column the cursor is on.
#[derive(Debug)]
pub struct PlayerConfig {
    /// The index into the player and curve arrays.
    pub id: usize,
    pub name: String,
    pub color: u32,
    pub keys: MoveKeys,
    pub selected: PlayerConfigFocus,
}

impl PlayerConfig {
    /// Copies the configured name, keys and colour onto the player and
    /// the curve. Scores, trails and physics are untouched.
    pub fn apply(&self, player: &mut Player, curve: &mut Curve)
        ensures
            final(player).name@ == self.name@,
            final(player).score == old(player).score,
            *final(curve) == (Curve {
                move_keys: self.keys,
                color: self.color,
                ..*old(curve)
            }),
    {
        player.name = self.name.clone();
        curve.move_keys = self.keys;
        curve.color = self.color;
    }

    /// A fresh player/curve pair from this configuration, the curve
    /// spawned at a random position inside `bounds`.
    pub fn to_player_curve_pair(
        &self,
        bounds: crate::kurve::ArenaBounds,
        alive: bool,
        velocity: i64,
        now: u64,
    ) -> (r: (Player, Curve))
        requires
            bounds.wf(),
            -crate::kurve::VEL_LIMIT <= velocity <= crate::kurve::VEL_LIMIT,
        ensures
            r.0.name@ == self.name@,
            r.0.score == 0,
            r.1.wf(),
            r.1.player_id == self.id,
            r.1.move_keys == self.keys,
            r.1.color == self.color,
            r.1.alive == alive,
            r.1.velocity == velocity,
            r.1.lines@.len() == 0,
            r.1.trail_active,
            r.1.trail_ts == now,
            r.1.girth == crate::point::Girth::Normal,
            r.1.rotation_speed == crate::kurve::DEFAULT_ROTATION,
            crate::kurve::TRAIL_SKIP_MIN <= r.1.trail_fuse < crate::kurve::TRAIL_SKIP_MAX,
            0 <= r.1.rotation < crate::kurve::TAU_MICRORAD,
            bounds.x_min <= r.1.position.x < bounds.x_max,
            bounds.y_min <= r.1.position.y < bounds.y_max,
    {
        let player = Player::new(self.name.clone());
        let curve = Curve::new_random_pos(
            self.id,
            bounds,
            self.keys,
            self.color,
            alive,
            velocity,
            now,
        );
        (player, curve)
    }
}

/// An entry of the setup menu.
#[derive(Debug)]
pub enum KurveMenuItem {
    PlayerCurveConfig(PlayerConfig),
    AddPlayer,
    Start,
}

/// The focused name editor: a text buffer being typed into.
#[derive(Debug)]
pub struct PlayerNameModifier {
    /// Current text buffer.
    pub buf: String,
}

impl PlayerNameModifier {
    /// One tick of text editing: backspace removes the last character;
    /// otherwise, while the buffer is within the cap, this tick's typed
    /// text is appended.
    pub fn update(&mut self, input: &MenuInput)
        ensures
            input.backspace ==> final(self).buf@ == (if old(self).buf@.len() > 0 {
                old(self).buf@.take(old(self).buf@.len() - 1)
            } else {
                old(self).buf@
            }),
            !input.backspace && input.typed is Some && old(self).buf@.len() <= NAME_CAP
                ==> final(self).buf@ == old(self).buf@ + input.typed->0@,
            !input.backspace && (input.typed is None || old(self).buf@.len() > NAME_CAP)
                ==> final(self).buf@ == old(self).buf@,
    {
        if input.backspace {
            let n = self.buf.as_str().unicode_len();
            if n > 0 {
                let tail = self.buf.as_str().substring_char(0, n - 1);
                let shorter = String::from_str(tail);
                proof {
                    assert(shorter@ =~= old(self).buf@.take(old(self).buf@.len() - 1));
                }
                self.buf = shorter;
            }
            return ;
        }
        let n = self.buf.as_str().unicode_len();
        if n <= NAME_CAP {
            match &input.typed {
                Some(t) => {
                    self.buf.append(t.as_str());
                },
                None => {},
            }
        }
    }
}

/// Which way a curve turns; in the key editor, which binding is being set.
#[derive(Clone, Copy, Debug, PartialEq, Eq, Structural)]
pub enum RotationDirection {
    Cw,
    Ccw,
}

/// The focused key-binding editor: first the counter-clockwise key is
/// captured, then the clockwise key.
#[derive(Clone, Copy, Debug, PartialEq, Eq, Structural)]
pub struct PlayerKeyModifier {
    pub dir: RotationDirection,
    pub key_ccw: u32,
    pub key_cw: u32,
}

impl PlayerKeyModifier {
    /// A fresh editor with both bindings unset, capturing the
    /// counter-clockwise key first.
    pub fn new() -> (m: PlayerKeyModifier)
        ensures
            m.dir == RotationDirection::Ccw,
            m.key_ccw == UNSET_KEY,
            m.key_cw == UNSET_KEY,
    {
        PlayerKeyModifier {
            dir: RotationDirection::Ccw,
            key_ccw: UNSET_KEY,
            key_cw: UNSET_KEY,
        }
    }

    /// One tick of key capture: backspace steps back from the clockwise
    /// slot; otherwise a just-pressed key fills the current slot and the
    /// cursor moves to the clockwise slot.
    pub fn update(&mut self, input: &MenuInput)
        ensures
            input.backspace ==> *final(self) == (if old(self).dir is Cw {
                PlayerKeyModifier {
                    dir: RotationDirection::Ccw,
                    key_cw: UNSET_KEY,
                    ..*old(self)
                }
            } else {
                *old(self)
            }),
            !input.backspace ==> *final(self) == (match input.pressed_key {
                Some(k) => {
                    if old(self).dir is Cw {
                        PlayerKeyModifier { dir: RotationDirection::Cw, key_cw: k, ..*old(self) }
                    } else {
                        PlayerKeyModifier { dir: RotationDirection::Cw, key_ccw: k, ..*old(self) }
                    }
                },
                None => *old(self),
            }),
    {
        if input.backspace {
            match self.dir {
                RotationDirection::Ccw => {},
                RotationDirection::Cw => {
                    self.dir = RotationDirection::Ccw;
                    self.key_cw = UNSET_KEY;
                },
            }
            return ;
        }
        if let Some(k) = input.pressed_key {
            match self.dir {
                RotationDirection::Cw => {
                    self.key_cw = k;
                },
                RotationDirection::Ccw => {
                    self.key_ccw = k;
                },
            }
            self.dir = RotationDirection::Cw;
        }
    }
}

/// The focused colour picker: the pool of free colours and a cursor.
#[derive(Debug)]
pub struct PlayerColorModifier {
    pub colors: Vec<u32>,
    pub selected: usize,
}

impl PlayerColorModifier {
    /// The cursor stays inside the non-empty pool.
    pub open spec fn wf(self) -> bool {
        self.colors@.len() > 0 && self.selected < self.colors@.len()
    }

    /// A picker over `colors`, cursor on the first entry.
    pub fn new(colors: Vec<u32>) -> (m: PlayerColorModifier)
        requires
            colors@.len() > 0,
        ensures
            m.colors == colors,
            m.selected == 0,
            m.wf(),
    {
        PlayerColorModifier { colors, selected: 0 }
    }

    /// The cursor after one tick of left/right input, wrapping at both
    /// ends; left is handled first, as the input layer delivers it.
    pub open spec fn spec_selected_after(self, left: bool, right: bool) -> int {
        let n = self.colors@.len() as int;
        let s1 = if left {
            if self.selected == 0 {
                n - 1
            } else {
                self.selected - 1
            }
        } else {
            self.selected as int
        };
        if right {
            (s1 + 1) % n
        } else {
            s1
        }
    }

    /// One tick of colour browsing.
    pub fn update(&mut self, left: bool, right: bool)
        requires
            old(self).wf(),
        ensures
            final(self).colors == old(self).colors,
            final(self).selected == old(self).spec_selected_after(left, right),
            final(self).wf(),
    {
        let n = self.colors.len();
        if left {
            if self.selected == 0 {
                self.selected = n - 1;
            } else {
                self.selected = self.selected - 1;
            }
        }
        if right {
            assert(self.selected < n);
            self.selected = (self.selected + 1) % n;
        }
    }
}

/// The active focused editor, a closed union dispatched by match.
#[derive(Debug)]
pub enum ActiveModifier {
    Name(PlayerNameModifier),
    Keys(PlayerKeyModifier),
    Color(PlayerColorModifier),
}

/// What selecting the current roster row does.
#[derive(Debug)]
pub enum SelectAction {
    /// Open this editor.
    Modifier(ActiveModifier),
    /// Remove the selected player from the roster.
    RemovePlayer,
}

/// An exact copy of a colour pool.
fn clone_colors(v: &Vec<u32>) -> (r: Vec<u32>)
    ensures
        r@ == v@,
{
    let mut r: Vec<u32> = Vec::new();
    let mut i: usize = 0;
    while i < v.len()
        invariant
            0 <= i <= v@.len(),
            r@ == v@.take(i as int),
        decreases v@.len() - i,
    {
        r.push(v[i]);
        proof {
            assert(r@ =~= v@.take(i as int + 1));
        }
        i = i + 1;
    }
    proof {
        assert(v@.take(v@.len() as int) =~= v@);
    }
    r
}

/// The setup menu: the roster rows, then the add-player and start
/// entries; the pools of colours and key bindings still free; and the
/// editor currently holding focus, if any.
#[derive(Debug)]
pub struct KurveMenu {
    /// Available menu items.
    pub items: Vec<KurveMenuItem>,
    /// The selected item.
    pub selected: usize,
    /// Available default colors.
    pub colors: Vec<u32>,
    /// Available default movement keys.
    pub keys: Vec<MoveKeys>,
    /// The active player config modifier.
    pub active_mod: Option<ActiveModifier>,
}

/// The roster cursor of one menu entry after a left/right navigation
/// tick: right steps every row's focus forward, left steps it back, and
/// both together cancel out.
pub open spec fn spec_nav_focus(f: PlayerConfigFocus, left: bool, right: bool) -> PlayerConfigFocus {
    let f1 = if right {
        f.spec_next()
    } else {
        f
    };
    if left {
        f1.spec_previous()
    } else {
        f1
    }
}

/// How one menu entry changes under a navigation tick: a player row's
/// cursor moves, every other entry stays as it is.
pub open spec fn nav_item_rel(
    before: KurveMenuItem,
    after: KurveMenuItem,
    left: bool,
    right: bool,
) -> bool {
    match before {
        KurveMenuItem::PlayerCurveConfig(c) => after matches KurveMenuItem::PlayerCurveConfig(nc)
            && nc.id == c.id && nc.name@ == c.name@ && nc.color == c.color && nc.keys == c.keys
            && nc.selected == spec_nav_focus(c.selected, left, right),
        _ => after == before,
    }
}

/// How one menu entry changes when roster slots shift down: a player
/// row's slot drops by one (never below zero), every other entry stays.
pub open spec fn dec_item_rel(before: KurveMenuItem, after: KurveMenuItem) -> bool {
    match before {
        KurveMenuItem::PlayerCurveConfig(c) => after matches KurveMenuItem::PlayerCurveConfig(nc)
            && nc.id == (if c.id > 0 {
            (c.id - 1) as usize
        } else {
            0
        }) && nc.name@ == c.name@ && nc.color == c.color && nc.keys == c.keys && nc.selected
            == c.selected,
        _ => after == before,
    }
}

impl KurveMenu {
    /// Moves every roster row's column cursor in lockstep, which is the
    /// more intuitive behaviour than moving only the selected row's.
    pub fn navigate(&mut self, left: bool, right: bool)
        ensures
            final(self).items@.len() == old(self).items@.len(),
            forall|i: int|
                0 <= i < old(self).items@.len() ==> nav_item_rel(
                    #[trigger] old(self).items@[i],
                    final(self).items@[i],
                    left,
                    right,
                ),
            final(self).selected == old(self).selected,
            final(self).colors == old(self).colors,
            final(self).keys == old(self).keys,
            final(self).active_mod == old(self).active_mod,
    {
        let n = self.items.len();
        let mut i: usize = 0;
        while i < n
            invariant
                0 <= i <= n,
                n == self.items@.len(),
                n == old(self).items@.len(),
                forall|k: int|
                    i <= k < n ==> self.items@[k] == old(self).items@[k],
                forall|k: int|
                    0 <= k < i ==> nav_item_rel(
                        #[trigger] old(self).items@[k],
                        self.items@[k],
                        left,
                        right,
                    ),
                self.selected == old(self).selected,
                self.colors == old(self).colors,
                self.keys == old(self).keys,
                self.active_mod == old(self).active_mod,
            decreases n - i,
        {
            let upd: Option<PlayerConfig> = match &self.items[i] {
                KurveMenuItem::PlayerCurveConfig(conf) => {
                    let mut focus = conf.selected;
                    if right {
                        focus = focus.next();
                    }
                    if left {
                        focus = focus.previous();
                    }
                    Some(
                        PlayerConfig {
                            id: conf.id,
                            name: conf.name.clone(),
                            color: conf.color,
                            keys: conf.keys,
                            selected: focus,
                        },
                    )
                },
                _ => None,
            };
            if let Some(c) = upd {
                self.items.set(i, KurveMenuItem::PlayerCurveConfig(c));
            }
            i = i + 1;
        }
    }

    /// Selects the current roster row and opens the action its column
    /// asks for. The caller must ensure the selected item is a player
    /// row; a colour pick with an empty pool yields no action.
    pub fn select_item(&self) -> (r: Option<SelectAction>)
        requires
            self.selected < self.items@.len(),
            self.items@[self.selected as int] is PlayerCurveConfig,
        ensures
            ({
                let focus = self.items@[self.selected as int]->PlayerCurveConfig_0.selected;
                match focus {
                    PlayerConfigFocus::Name => r matches Some(SelectAction::Modifier(
                        ActiveModifier::Name(m),
                    )) && m.buf@.len() == 0,
                    PlayerConfigFocus::Color => {
                        if self.colors@.len() > 0 {
                            r matches Some(SelectAction::Modifier(ActiveModifier::Color(m)))
                                && m.colors@ == self.colors@ && m.selected == 0
                        } else {
                            r is None
                        }
                    },
                    PlayerConfigFocus::Keys => r matches Some(SelectAction::Modifier(
                        ActiveModifier::Keys(m),
                    )) && m == PlayerKeyModifier::new_spec(),
                    PlayerConfigFocus::Remove => r matches Some(SelectAction::RemovePlayer),
                }
            }),
    {
        let conf = match &self.items[self.selected] {
            KurveMenuItem::PlayerCurveConfig(conf) => conf,
            _ => unreached(),
        };
        match conf.selected {
            PlayerConfigFocus::Name => Some(
                SelectAction::Modifier(
                    ActiveModifier::Name(PlayerNameModifier { buf: String::new() }),
                ),
            ),
            PlayerConfigFocus::Color => {
                if self.colors.len() > 0 {
                    Some(
                        SelectAction::Modifier(
                            ActiveModifier::Color(
                                PlayerColorModifier::new(clone_colors(&self.colors)),
                            ),
                        ),
                    )
                } else {
                    None
                }
            },
            PlayerConfigFocus::Keys => Some(
                SelectAction::Modifier(ActiveModifier::Keys(PlayerKeyModifier::new())),
            ),
            PlayerConfigFocus::Remove => Some(SelectAction::RemovePlayer),
        }
    }

    /// Shifts the roster slot of every player row at or after `from` down
    /// by one; called after a row has been removed so that row indices
    /// and slots stay aligned.
    pub fn decrement_config_ids(&mut self, from: usize)
        requires
            from <= old(self).items@.len(),
        ensures
            final(self).items@.len() == old(self).items@.len(),
            forall|i: int| 0 <= i < from ==> final(self).items@[i] == old(self).items@[i],
            forall|i: int|
                from <= i < old(self).items@.len() ==> dec_item_rel(
                    #[trigger] old(self).items@[i],
                    final(self).items@[i],
                ),
            final(self).selected == old(self).selected,
            final(self).colors == old(self).colors,
            final(self).keys == old(self).keys,
            final(self).active_mod == old(self).active_mod,
    {
        let n = self.items.len();
        let mut i: usize = from;
        while i < n
            invariant
                from <= i <= n,
                n == self.items@.len(),
                n == old(self).items@.len(),
                forall|k: int| 0 <= k < from ==> self.items@[k] == old(self).items@[k],
                forall|k: int|
                    i <= k < n ==> self.items@[k] == old(self).items@[k],
                forall|k: int|
                    from <= k < i ==> dec_item_rel(
                        #[trigger] old(self).items@[k],
                        self.items@[k],
                    ),
                self.selected == old(self).selected,
                self.colors == old(self).colors,
                self.keys == old(self).keys,
                self.active_mod == old(self).active_mod,
            decreases n - i,
        {
            let upd: Option<PlayerConfig> = match &self.items[i] {
                KurveMenuItem::PlayerCurveConfig(conf) => Some(
                    PlayerConfig {
                        id: if conf.id > 0 {
                            conf.id - 1
                        } else {
                            0
                        },
                        name: conf.name.clone(),
                        color: conf.color,
                        keys: conf.keys,
                        selected: conf.selected,
                    },
                ),
                _ => None,
            };
            if let Some(c) = upd {
                self.items.set(i, KurveMenuItem::PlayerCurveConfig(c));
            }
            i = i + 1;
        }
    }
}

impl PlayerKeyModifier {
    /// The fresh editor state [`PlayerKeyModifier::new`] returns.
    pub open spec fn new_spec() -> PlayerKeyModifier {
        PlayerKeyModifier {
            dir: RotationDirection::Ccw,
            key_ccw: UNSET_KEY,
            key_cw: UNSET_KEY,
        }
    }
}


/// How one menu entry changes when every roster cursor is sent home: a
/// player row's cursor returns to the name column, other entries stay.
pub open spec fn home_item_rel(before: KurveMenuItem, after: KurveMenuItem) -> bool {
    match before {
        KurveMenuItem::PlayerCurveConfig(c) => after matches KurveMenuItem::PlayerCurveConfig(nc)
            && nc.id == c.id && nc.name@ == c.name@ && nc.color == c.color && nc.keys == c.keys
            && nc.selected == PlayerConfigFocus::Name,
        _ => after == before,
    }
}

impl KurveMenu {
    /// Sends every roster row's column cursor back to the name column,
    /// as happens after the roster changes shape.
    pub fn reset_focus_all(&mut self)
        ensures
            final(self).items@.len() == old(self).items@.len(),
            forall|i: int|
                0 <= i < old(self).items@.len() ==> home_item_rel(
                    #[trigger] old(self).items@[i],
                    final(self).items@[i],
                ),
            final(self).selected == old(self).selected,
            final(self).colors == old(self).colors,
            final(self).keys == old(self).keys,
            final(self).active_mod == old(self).active_mod,
    {
        let n = self.items.len();
        let mut i: usize = 0;
        while i < n
            invariant
                0 <= i <= n,
                n == self.items@.len(),
                n == old(self).items@.len(),
                forall|k: int| i <= k < n ==> self.items@[k] == old(self).items@[k],
                forall|k: int|
                    0 <= k < i ==> home_item_rel(#[trigger] old(self).items@[k], self.items@[k]),
                self.selected == old(self).selected,
                self.colors == old(self).colors,
                self.keys == old(self).keys,
                self.active_mod == old(self).active_mod,
            decreases n - i,
        {
            let upd: Option<PlayerConfig> = match &self.items[i] {
                KurveMenuItem::PlayerCurveConfig(conf) => Some(
                    PlayerConfig {
                        id: conf.id,
                        name: conf.name.clone(),
                        color: conf.color,
                        keys: conf.keys,
                        selected: PlayerConfigFocus::Name,
                    },
                ),
                _ => None,
            };
            if let Some(c) = upd {
                self.items.set(i, KurveMenuItem::PlayerCurveConfig(c));
            }
            i = i + 1;
        }
    }
}

} // verus!
