use vstd::prelude::*;
use crate::key_state::{after_release, next_frame, KeyState};

verus! {

/// The keys that the editor tracks. Any other key of the keyboard is `Other`.
#[derive(PartialEq, Eq, Debug, Clone, Copy, Structural)]
pub enum Key {
    A,
    B,
    C,
    D,
    E,
    F,
    G,
    H,
    I,
    J,
    K,
    L,
    M,
    N,
    O,
    P,
    Q,
    R,
    S,
    T,
    U,
    V,
    W,
    X,
    Y,
    Z,
    Up,
    Down,
    Left,
    Right,
    Num0,
    Num1,
    Num2,
    Num3,
    Num4,
    Num5,
    Num6,
    Num7,
    Num8,
    Num9,
    Space,
    Return,
    LShift,
    RShift,
    LCtrl,
    RCtrl,
    LAlt,
    RAlt,
    Escape,
    Tab,
    LGui,
    RGui,
    Delete,
    Backspace,
    Period,
    Comma,
    Other,
}

/// The state of every tracked key and mouse button.
pub struct KeysState {
    pub a: KeyState,
    pub b: KeyState,
    pub c: KeyState,
    pub d: KeyState,
    pub e: KeyState,
    pub f: KeyState,
    pub g: KeyState,
    pub h: KeyState,
    pub i: KeyState,
    pub j: KeyState,
    pub k: KeyState,
    pub l: KeyState,
    pub m: KeyState,
    pub n: KeyState,
    pub o: KeyState,
    pub p: KeyState,
    pub q: KeyState,
    pub r: KeyState,
    pub s: KeyState,
    pub t: KeyState,
    pub u: KeyState,
    pub v: KeyState,
    pub w: KeyState,
    pub x: KeyState,
    pub y: KeyState,
    pub z: KeyState,
    pub up: KeyState,
    pub down: KeyState,
    pub left: KeyState,
    pub right: KeyState,
    pub _0: KeyState,
    pub _1: KeyState,
    pub _2: KeyState,
    pub _3: KeyState,
    pub _4: KeyState,
    pub _5: KeyState,
    pub _6: KeyState,
    pub _7: KeyState,
    pub _8: KeyState,
    pub _9: KeyState,
    pub space: KeyState,
    pub enter: KeyState,
    pub mouse_left: KeyState,
    pub mouse_right: KeyState,
    pub mouse_middle: KeyState,
    pub escape: KeyState,
    pub backspace: KeyState,
    pub lctrl: KeyState,
    pub rctrl: KeyState,
    pub tab: KeyState,
    pub lshift: KeyState,
    pub rshift: KeyState,
    pub lalt: KeyState,
    pub ralt: KeyState,
    pub lgui: KeyState,
    pub rgui: KeyState,
    pub period: KeyState,
    pub comma: KeyState,
    pub delete: KeyState,
}

impl KeysState {
    /// The state that `key` designates. Keys that are not tracked designate
    /// the state of `t`.
    pub open spec fn key(self, key: Key) -> KeyState {
        match key {
            Key::A => self.a,
            Key::B => self.b,
            Key::C => self.c,
            Key::D => self.d,
            Key::E => self.e,
            Key::F => self.f,
            Key::G => self.g,
            Key::H => self.h,
            Key::I => self.i,
            Key::J => self.j,
            Key::K => self.k,
            Key::L => self.l,
            Key::M => self.m,
            Key::N => self.n,
            Key::O => self.o,
            Key::P => self.p,
            Key::Q => self.q,
            Key::R => self.r,
            Key::S => self.s,
            Key::T => self.t,
            Key::U => self.u,
            Key::V => self.v,
            Key::W => self.w,
            Key::X => self.x,
            Key::Y => self.y,
            Key::Z => self.z,
            Key::Up => self.up,
            Key::Down => self.down,
            Key::Left => self.left,
            Key::Right => self.right,
            Key::Num0 => self._0,
            Key::Num1 => self._1,
            Key::Num2 => self._2,
            Key::Num3 => self._3,
            Key::Num4 => self._4,
            Key::Num5 => self._5,
            Key::Num6 => self._6,
            Key::Num7 => self._7,
            Key::Num8 => self._8,
            Key::Num9 => self._9,
            Key::Space => self.space,
            Key::Return => self.enter,
            Key::LShift => self.lshift,
            Key::RShift => self.rshift,
            Key::LCtrl => self.lctrl,
            Key::RCtrl => self.rctrl,
            Key::LAlt => self.lalt,
            Key::RAlt => self.ralt,
            Key::Escape => self.escape,
            Key::Tab => self.tab,
            Key::LGui => self.lgui,
            Key::RGui => self.rgui,
            Key::Delete => self.delete,
            Key::Backspace => self.backspace,
            Key::Period => self.period,
            Key::Comma => self.comma,
            Key::Other => self.t,
        }
    }

    /// The keys whose state can be read: all tracked keys but `.` and `,`.
    pub open spec fn readable(key: Key) -> bool {
        key != Key::Period && key != Key::Comma && key != Key::Other
    }

    /// The tracked states in the order in which `as_mut_array` hands them out.
    pub open spec fn array_order(self) -> Seq<KeyState> {
        seq![
            self.a,
            self.b,
            self.c,
            self.d,
            self.e,
            self.f,
            self.g,
            self.h,
            self.i,
            self.j,
            self.k,
            self.l,
            self.m,
            self.n,
            self.o,
            self.p,
            self.q,
            self.r,
            self.s,
            self.t,
            self.u,
            self.v,
            self.w,
            self.x,
            self.y,
            self.z,
            self.up,
            self.down,
            self.left,
            self.right,
            self.space,
            self.enter,
            self.mouse_left,
            self.mouse_right,
            self.mouse_middle,
            self.escape,
            self.backspace,
            self._0,
            self._1,
            self._2,
            self._3,
            self._4,
            self._5,
            self._6,
            self._7,
            self._8,
            self._9,
            self.ralt,
            self.lalt,
            self.rctrl,
            self.lctrl,
            self.rshift,
            self.lshift,
            self.tab,
            self.lgui,
            self.rgui,
            self.delete,
        ]
    }

    /// Every key and button is up.
    pub open spec fn all_up(self) -> bool {
        &&& self.a == KeyState::Up
        &&& self.b == KeyState::Up
        &&& self.c == KeyState::Up
        &&& self.d == KeyState::Up
        &&& self.e == KeyState::Up
        &&& self.f == KeyState::Up
        &&& self.g == KeyState::Up
        &&& self.h == KeyState::Up
        &&& self.i == KeyState::Up
        &&& self.j == KeyState::Up
        &&& self.k == KeyState::Up
        &&& self.l == KeyState::Up
        &&& self.m == KeyState::Up
        &&& self.n == KeyState::Up
        &&& self.o == KeyState::Up
        &&& self.p == KeyState::Up
        &&& self.q == KeyState::Up
        &&& self.r == KeyState::Up
        &&& self.s == KeyState::Up
        &&& self.t == KeyState::Up
        &&& self.u == KeyState::Up
        &&& self.v == KeyState::Up
        &&& self.w == KeyState::Up
        &&& self.x == KeyState::Up
        &&& self.y == KeyState::Up
        &&& self.z == KeyState::Up
        &&& self.up == KeyState::Up
        &&& self.down == KeyState::Up
        &&& self.left == KeyState::Up
        &&& self.right == KeyState::Up
        &&& self._0 == KeyState::Up
        &&& self._1 == KeyState::Up
        &&& self._2 == KeyState::Up
        &&& self._3 == KeyState::Up
        &&& self._4 == KeyState::Up
        &&& self._5 == KeyState::Up
        &&& self._6 == KeyState::Up
        &&& self._7 == KeyState::Up
        &&& self._8 == KeyState::Up
        &&& self._9 == KeyState::Up
        &&& self.space == KeyState::Up
        &&& self.enter == KeyState::Up
        &&& self.mouse_left == KeyState::Up
        &&& self.mouse_right == KeyState::Up
        &&& self.mouse_middle == KeyState::Up
        &&& self.escape == KeyState::Up
        &&& self.backspace == KeyState::Up
        &&& self.lctrl == KeyState::Up
        &&& self.rctrl == KeyState::Up
        &&& self.tab == KeyState::Up
        &&& self.lshift == KeyState::Up
        &&& self.rshift == KeyState::Up
        &&& self.lalt == KeyState::Up
        &&& self.ralt == KeyState::Up
        &&& self.lgui == KeyState::Up
        &&& self.rgui == KeyState::Up
        &&& self.period == KeyState::Up
        &&& self.comma == KeyState::Up
        &&& self.delete == KeyState::Up
    }


    /// `self` with the state that `key` designates replaced by `s`.
    pub open spec fn with_key(self, key: Key, s: KeyState) -> Self {
        match key {
            Key::A => KeysState { a: s, ..self },
            Key::B => KeysState { b: s, ..self },
            Key::C => KeysState { c: s, ..self },
            Key::D => KeysState { d: s, ..self },
            Key::E => KeysState { e: s, ..self },
            Key::F => KeysState { f: s, ..self },
            Key::G => KeysState { g: s, ..self },
            Key::H => KeysState { h: s, ..self },
            Key::I => KeysState { i: s, ..self },
            Key::J => KeysState { j: s, ..self },
            Key::K => KeysState { k: s, ..self },
            Key::L => KeysState { l: s, ..self },
            Key::M => KeysState { m: s, ..self },
            Key::N => KeysState { n: s, ..self },
            Key::O => KeysState { o: s, ..self },
            Key::P => KeysState { p: s, ..self },
            Key::Q => KeysState { q: s, ..self },
            Key::R => KeysState { r: s, ..self },
            Key::S => KeysState { s: s, ..self },
            Key::T => KeysState { t: s, ..self },
            Key::U => KeysState { u: s, ..self },
            Key::V => KeysState { v: s, ..self },
            Key::W => KeysState { w: s, ..self },
            Key::X => KeysState { x: s, ..self },
            Key::Y => KeysState { y: s, ..self },
            Key::Z => KeysState { z: s, ..self },
            Key::Up => KeysState { up: s, ..self },
            Key::Down => KeysState { down: s, ..self },
            Key::Left => KeysState { left: s, ..self },
            Key::Right => KeysState { right: s, ..self },
            Key::Num0 => KeysState { _0: s, ..self },
            Key::Num1 => KeysState { _1: s, ..self },
            Key::Num2 => KeysState { _2: s, ..self },
            Key::Num3 => KeysState { _3: s, ..self },
            Key::Num4 => KeysState { _4: s, ..self },
            Key::Num5 => KeysState { _5: s, ..self },
            Key::Num6 => KeysState { _6: s, ..self },
            Key::Num7 => KeysState { _7: s, ..self },
            Key::Num8 => KeysState { _8: s, ..self },
            Key::Num9 => KeysState { _9: s, ..self },
            Key::Space => KeysState { space: s, ..self },
            Key::Return => KeysState { enter: s, ..self },
            Key::LShift => KeysState { lshift: s, ..self },
            Key::RShift => KeysState { rshift: s, ..self },
            Key::LCtrl => KeysState { lctrl: s, ..self },
            Key::RCtrl => KeysState { rctrl: s, ..self },
            Key::LAlt => KeysState { lalt: s, ..self },
            Key::RAlt => KeysState { ralt: s, ..self },
            Key::Escape => KeysState { escape: s, ..self },
            Key::Tab => KeysState { tab: s, ..self },
            Key::LGui => KeysState { lgui: s, ..self },
            Key::RGui => KeysState { rgui: s, ..self },
            Key::Delete => KeysState { delete: s, ..self },
            Key::Backspace => KeysState { backspace: s, ..self },
            Key::Period => KeysState { period: s, ..self },
            Key::Comma => KeysState { comma: s, ..self },
            Key::Other => KeysState { t: s, ..self },
        }
    }

    /// Returns the state of `key`.
    pub fn get_key(&self, key: Key) -> (r: &KeyState)
        requires
            Self::readable(key),
        ensures
            *r == self.key(key),
    {
        match key {
            Key::A => &self.a,
            Key::B => &self.b,
            Key::C => &self.c,
            Key::D => &self.d,
            Key::E => &self.e,
            Key::F => &self.f,
            Key::G => &self.g,
            Key::H => &self.h,
            Key::I => &self.i,
            Key::J => &self.j,
            Key::K => &self.k,
            Key::L => &self.l,
            Key::M => &self.m,
            Key::N => &self.n,
            Key::O => &self.o,
            Key::P => &self.p,
            Key::Q => &self.q,
            Key::R => &self.r,
            Key::S => &self.s,
            Key::T => &self.t,
            Key::U => &self.u,
            Key::V => &self.v,
            Key::W => &self.w,
            Key::X => &self.x,
            Key::Y => &self.y,
            Key::Z => &self.z,
            Key::Up => &self.up,
            Key::Down => &self.down,
            Key::Left => &self.left,
            Key::Right => &self.right,
            Key::Num0 => &self._0,
            Key::Num1 => &self._1,
            Key::Num2 => &self._2,
            Key::Num3 => &self._3,
            Key::Num4 => &self._4,
            Key::Num5 => &self._5,
            Key::Num6 => &self._6,
            Key::Num7 => &self._7,
            Key::Num8 => &self._8,
            Key::Num9 => &self._9,
            Key::Space => &self.space,
            Key::Return => &self.enter,
            Key::LShift => &self.lshift,
            Key::RShift => &self.rshift,
            Key::LCtrl => &self.lctrl,
            Key::RCtrl => &self.rctrl,
            Key::LAlt => &self.lalt,
            Key::RAlt => &self.ralt,
            Key::Escape => &self.escape,
            Key::Tab => &self.tab,
            Key::LGui => &self.lgui,
            Key::RGui => &self.rgui,
            Key::Delete => &self.delete,
            Key::Backspace => &self.backspace,
            Key::Period | Key::Comma | Key::Other => &self.t,
        }
    }

    /// The state that `key` designates, for every key.
    fn state_of(&self, key: Key) -> (r: KeyState)
        ensures
            r == self.key(key),
    {
        match key {
            Key::A => self.a,
            Key::B => self.b,
            Key::C => self.c,
            Key::D => self.d,
            Key::E => self.e,
            Key::F => self.f,
            Key::G => self.g,
            Key::H => self.h,
            Key::I => self.i,
            Key::J => self.j,
            Key::K => self.k,
            Key::L => self.l,
            Key::M => self.m,
            Key::N => self.n,
            Key::O => self.o,
            Key::P => self.p,
            Key::Q => self.q,
            Key::R => self.r,
            Key::S => self.s,
            Key::T => self.t,
            Key::U => self.u,
            Key::V => self.v,
            Key::W => self.w,
            Key::X => self.x,
            Key::Y => self.y,
            Key::Z => self.z,
            Key::Up => self.up,
            Key::Down => self.down,
            Key::Left => self.left,
            Key::Right => self.right,
            Key::Num0 => self._0,
            Key::Num1 => self._1,
            Key::Num2 => self._2,
            Key::Num3 => self._3,
            Key::Num4 => self._4,
            Key::Num5 => self._5,
            Key::Num6 => self._6,
            Key::Num7 => self._7,
            Key::Num8 => self._8,
            Key::Num9 => self._9,
            Key::Space => self.space,
            Key::Return => self.enter,
            Key::LShift => self.lshift,
            Key::RShift => self.rshift,
            Key::LCtrl => self.lctrl,
            Key::RCtrl => self.rctrl,
            Key::LAlt => self.lalt,
            Key::RAlt => self.ralt,
            Key::Escape => self.escape,
            Key::Tab => self.tab,
            Key::LGui => self.lgui,
            Key::RGui => self.rgui,
            Key::Delete => self.delete,
            Key::Backspace => self.backspace,
            Key::Period => self.period,
            Key::Comma => self.comma,
            Key::Other => self.t,
        }
    }

    /// Stores `s` as the state that `key` designates.
    fn set_key(&mut self, key: Key, s: KeyState)
        ensures
            *final(self) == old(self).with_key(key, s),
    {
        match key {
            Key::A => self.a = s,
            Key::B => self.b = s,
            Key::C => self.c = s,
            Key::D => self.d = s,
            Key::E => self.e = s,
            Key::F => self.f = s,
            Key::G => self.g = s,
            Key::H => self.h = s,
            Key::I => self.i = s,
            Key::J => self.j = s,
            Key::K => self.k = s,
            Key::L => self.l = s,
            Key::M => self.m = s,
            Key::N => self.n = s,
            Key::O => self.o = s,
            Key::P => self.p = s,
            Key::Q => self.q = s,
            Key::R => self.r = s,
            Key::S => self.s = s,
            Key::T => self.t = s,
            Key::U => self.u = s,
            Key::V => self.v = s,
            Key::W => self.w = s,
            Key::X => self.x = s,
            Key::Y => self.y = s,
            Key::Z => self.z = s,
            Key::Up => self.up = s,
            Key::Down => self.down = s,
            Key::Left => self.left = s,
            Key::Right => self.right = s,
            Key::Num0 => self._0 = s,
            Key::Num1 => self._1 = s,
            Key::Num2 => self._2 = s,
            Key::Num3 => self._3 = s,
            Key::Num4 => self._4 = s,
            Key::Num5 => self._5 = s,
            Key::Num6 => self._6 = s,
            Key::Num7 => self._7 = s,
            Key::Num8 => self._8 = s,
            Key::Num9 => self._9 = s,
            Key::Space => self.space = s,
            Key::Return => self.enter = s,
            Key::LShift => self.lshift = s,
            Key::RShift => self.rshift = s,
            Key::LCtrl => self.lctrl = s,
            Key::RCtrl => self.rctrl = s,
            Key::LAlt => self.lalt = s,
            Key::RAlt => self.ralt = s,
            Key::Escape => self.escape = s,
            Key::Tab => self.tab = s,
            Key::LGui => self.lgui = s,
            Key::RGui => self.rgui = s,
            Key::Delete => self.delete = s,
            Key::Backspace => self.backspace = s,
            Key::Period => self.period = s,
            Key::Comma => self.comma = s,
            Key::Other => self.t = s,
        }
    }

    /// Records that `key` went down.
    pub fn press_key(&mut self, key: Key)
        ensures
            *final(self) == old(self).with_key(key, KeyState::Pressed),
    {
        let mut s = self.state_of(key);
        s.press();
        self.set_key(key, s);
    }

    /// Records that `key` went up.
    pub fn release_key(&mut self, key: Key)
        ensures
            *final(self) == old(self).with_key(key, after_release(old(self).key(key))),
    {
        let mut s = self.state_of(key);
        s.release();
        self.set_key(key, s);
    }

    /// Advances every state that `as_mut_array` hands out by one frame.
    pub fn update_all(&mut self)
        ensures
            final(self).array_order() == old(self).array_order().map_values(
                |s: KeyState| next_frame(s),
            ),
            final(self).period == old(self).period,
            final(self).comma == old(self).comma,
    {
        self.a.update();
        self.b.update();
        self.c.update();
        self.d.update();
        self.e.update();
        self.f.update();
        self.g.update();
        self.h.update();
        self.i.update();
        self.j.update();
        self.k.update();
        self.l.update();
        self.m.update();
        self.n.update();
        self.o.update();
        self.p.update();
        self.q.update();
        self.r.update();
        self.s.update();
        self.t.update();
        self.u.update();
        self.v.update();
        self.w.update();
        self.x.update();
        self.y.update();
        self.z.update();
        self.up.update();
        self.down.update();
        self.left.update();
        self.right.update();
        self.space.update();
        self.enter.update();
        self.mouse_left.update();
        self.mouse_right.update();
        self.mouse_middle.update();
        self.escape.update();
        self.backspace.update();
        self._0.update();
        self._1.update();
        self._2.update();
        self._3.update();
        self._4.update();
        self._5.update();
        self._6.update();
        self._7.update();
        self._8.update();
        self._9.update();
        self.ralt.update();
        self.lalt.update();
        self.rctrl.update();
        self.lctrl.update();
        self.rshift.update();
        self.lshift.update();
        self.tab.update();
        self.lgui.update();
        self.rgui.update();
        self.delete.update();
        assert(self.array_order() =~= old(self).array_order().map_values(
            |s: KeyState| next_frame(s),
        ));
    }

    /// Hands out every tracked state but `.` and `,` for an update.
    pub fn as_mut_array(&mut self) -> (r: [&mut KeyState; 57])
        ensures
            *r[0] == old(self).a,
            *r[1] == old(self).b,
            *r[2] == old(self).c,
            *r[3] == old(self).d,
            *r[4] == old(self).e,
            *r[5] == old(self).f,
            *r[6] == old(self).g,
            *r[7] == old(self).h,
            *r[8] == old(self).i,
            *r[9] == old(self).j,
            *r[10] == old(self).k,
            *r[11] == old(self).l,
            *r[12] == old(self).m,
            *r[13] == old(self).n,
            *r[14] == old(self).o,
            *r[15] == old(self).p,
            *r[16] == old(self).q,
            *r[17] == old(self).r,
            *r[18] == old(self).s,
            *r[19] == old(self).t,
            *r[20] == old(self).u,
            *r[21] == old(self).v,
            *r[22] == old(self).w,
            *r[23] == old(self).x,
            *r[24] == old(self).y,
            *r[25] == old(self).z,
            *r[26] == old(self).up,
            *r[27] == old(self).down,
            *r[28] == old(self).left,
            *r[29] == old(self).right,
            *r[30] == old(self).space,
            *r[31] == old(self).enter,
            *r[32] == old(self).mouse_left,
            *r[33] == old(self).mouse_right,
            *r[34] == old(self).mouse_middle,
            *r[35] == old(self).escape,
            *r[36] == old(self).backspace,
            *r[37] == old(self)._0,
            *r[38] == old(self)._1,
            *r[39] == old(self)._2,
            *r[40] == old(self)._3,
            *r[41] == old(self)._4,
            *r[42] == old(self)._5,
            *r[43] == old(self)._6,
            *r[44] == old(self)._7,
            *r[45] == old(self)._8,
            *r[46] == old(self)._9,
            *r[47] == old(self).ralt,
            *r[48] == old(self).lalt,
            *r[49] == old(self).rctrl,
            *r[50] == old(self).lctrl,
            *r[51] == old(self).rshift,
            *r[52] == old(self).lshift,
            *r[53] == old(self).tab,
            *r[54] == old(self).lgui,
            *r[55] == old(self).rgui,
            *r[56] == old(self).delete,
            final(self).a == *final(r[0]),
            final(self).b == *final(r[1]),
            final(self).c == *final(r[2]),
            final(self).d == *final(r[3]),
            final(self).e == *final(r[4]),
            final(self).f == *final(r[5]),
            final(self).g == *final(r[6]),
            final(self).h == *final(r[7]),
            final(self).i == *final(r[8]),
            final(self).j == *final(r[9]),
            final(self).k == *final(r[10]),
            final(self).l == *final(r[11]),
            final(self).m == *final(r[12]),
            final(self).n == *final(r[13]),
            final(self).o == *final(r[14]),
            final(self).p == *final(r[15]),
            final(self).q == *final(r[16]),
            final(self).r == *final(r[17]),
            final(self).s == *final(r[18]),
            final(self).t == *final(r[19]),
            final(self).u == *final(r[20]),
            final(self).v == *final(r[21]),
            final(self).w == *final(r[22]),
            final(self).x == *final(r[23]),
            final(self).y == *final(r[24]),
            final(self).z == *final(r[25]),
            final(self).up == *final(r[26]),
            final(self).down == *final(r[27]),
            final(self).left == *final(r[28]),
            final(self).right == *final(r[29]),
            final(self).space == *final(r[30]),
            final(self).enter == *final(r[31]),
            final(self).mouse_left == *final(r[32]),
            final(self).mouse_right == *final(r[33]),
            final(self).mouse_middle == *final(r[34]),
            final(self).escape == *final(r[35]),
            final(self).backspace == *final(r[36]),
            final(self)._0 == *final(r[37]),
            final(self)._1 == *final(r[38]),
            final(self)._2 == *final(r[39]),
            final(self)._3 == *final(r[40]),
            final(self)._4 == *final(r[41]),
            final(self)._5 == *final(r[42]),
            final(self)._6 == *final(r[43]),
            final(self)._7 == *final(r[44]),
            final(self)._8 == *final(r[45]),
            final(self)._9 == *final(r[46]),
            final(self).ralt == *final(r[47]),
            final(self).lalt == *final(r[48]),
            final(self).rctrl == *final(r[49]),
            final(self).lctrl == *final(r[50]),
            final(self).rshift == *final(r[51]),
            final(self).lshift == *final(r[52]),
            final(self).tab == *final(r[53]),
            final(self).lgui == *final(r[54]),
            final(self).rgui == *final(r[55]),
            final(self).delete == *final(r[56]),
            final(self).period == old(self).period,
            final(self).comma == old(self).comma,
    {
        [
            &mut self.a,
            &mut self.b,
            &mut self.c,
            &mut self.d,
            &mut self.e,
            &mut self.f,
            &mut self.g,
            &mut self.h,
            &mut self.i,
            &mut self.j,
            &mut self.k,
            &mut self.l,
            &mut self.m,
            &mut self.n,
            &mut self.o,
            &mut self.p,
            &mut self.q,
            &mut self.r,
            &mut self.s,
            &mut self.t,
            &mut self.u,
            &mut self.v,
            &mut self.w,
            &mut self.x,
            &mut self.y,
            &mut self.z,
            &mut self.up,
            &mut self.down,
            &mut self.left,
            &mut self.right,
            &mut self.space,
            &mut self.enter,
            &mut self.mouse_left,
            &mut self.mouse_right,
            &mut self.mouse_middle,
            &mut self.escape,
            &mut self.backspace,
            &mut self._0,
            &mut self._1,
            &mut self._2,
            &mut self._3,
            &mut self._4,
            &mut self._5,
            &mut self._6,
            &mut self._7,
            &mut self._8,
            &mut self._9,
            &mut self.ralt,
            &mut self.lalt,
            &mut self.rctrl,
            &mut self.lctrl,
            &mut self.rshift,
            &mut self.lshift,
            &mut self.tab,
            &mut self.lgui,
            &mut self.rgui,
            &mut self.delete,
        ]
    }

    /// Whether `shortcut` was triggered this frame: its key was just pressed
    /// and, in each group of modifiers, some key is held.
    pub fn shortcut_pressed(&self, shortcut: &Shortcut) -> (r: bool)
        requires
            shortcut.wf(),
        ensures
            r == self.shortcut_holds(shortcut.view()),
    {
        if !self.get_key(shortcut.key).is_pressed() {
            return false;
        }
        let mut i: usize = 0;
        while i < shortcut.ctrl_keys.len()
            invariant
                shortcut.wf(),
                0 <= i <= shortcut.ctrl_keys@.len(),
                forall|j: int| 0 <= j < i ==> self.group_held(#[trigger] shortcut.ctrl_keys@[j]@),
            decreases shortcut.ctrl_keys@.len() - i,
        {
            let group = &shortcut.ctrl_keys[i];
            let mut found = false;
            let mut k: usize = 0;
            while k < group.len()
                invariant
                    shortcut.wf(),
                    0 <= i < shortcut.ctrl_keys@.len(),
                    *group == shortcut.ctrl_keys@[i as int],
                    0 <= k <= group@.len(),
                    found == (exists|m: int| 0 <= m < k && #[trigger] self.key(group@[m]) == KeyState::Down),
                decreases group@.len() - k,
            {
                if self.get_key(group[k]).is_down() {
                    found = true;
                }
                k = k + 1;
            }
            if !found {
                assert(shortcut.view().0[i as int] == shortcut.ctrl_keys@[i as int]@);
                return false;
            }
            i = i + 1;
        }
        assert forall|j: int| 0 <= j < shortcut.view().0.len() implies self.group_held(
            #[trigger] shortcut.view().0[j],
        ) by {
            assert(shortcut.view().0[j] == shortcut.ctrl_keys@[j]@);
        }
        true
    }

    /// Some key of `group` is held.
    pub open spec fn group_held(self, group: Seq<Key>) -> bool {
        exists|m: int| 0 <= m < group.len() && #[trigger] self.key(group[m]) == KeyState::Down
    }

    /// The shortcut `(groups, key)` was triggered.
    pub open spec fn shortcut_holds(self, sc: (Seq<Seq<Key>>, Key)) -> bool {
        &&& self.key(sc.1) == KeyState::Pressed
        &&& forall|j: int| 0 <= j < sc.0.len() ==> self.group_held(#[trigger] sc.0[j])
    }
}

impl Default for KeysState {
    fn default() -> (r: Self)
        ensures
            r.all_up(),
    {
        KeysState {
            a: KeyState::Up,
            b: KeyState::Up,
            c: KeyState::Up,
            d: KeyState::Up,
            e: KeyState::Up,
            f: KeyState::Up,
            g: KeyState::Up,
            h: KeyState::Up,
            i: KeyState::Up,
            j: KeyState::Up,
            k: KeyState::Up,
            l: KeyState::Up,
            m: KeyState::Up,
            n: KeyState::Up,
            o: KeyState::Up,
            p: KeyState::Up,
            q: KeyState::Up,
            r: KeyState::Up,
            s: KeyState::Up,
            t: KeyState::Up,
            u: KeyState::Up,
            v: KeyState::Up,
            w: KeyState::Up,
            x: KeyState::Up,
            y: KeyState::Up,
            z: KeyState::Up,
            up: KeyState::Up,
            down: KeyState::Up,
            left: KeyState::Up,
            right: KeyState::Up,
            _0: KeyState::Up,
            _1: KeyState::Up,
            _2: KeyState::Up,
            _3: KeyState::Up,
            _4: KeyState::Up,
            _5: KeyState::Up,
            _6: KeyState::Up,
            _7: KeyState::Up,
            _8: KeyState::Up,
            _9: KeyState::Up,
            space: KeyState::Up,
            enter: KeyState::Up,
            mouse_left: KeyState::Up,
            mouse_right: KeyState::Up,
            mouse_middle: KeyState::Up,
            escape: KeyState::Up,
            backspace: KeyState::Up,
            lctrl: KeyState::Up,
            rctrl: KeyState::Up,
            tab: KeyState::Up,
            lshift: KeyState::Up,
            rshift: KeyState::Up,
            lalt: KeyState::Up,
            ralt: KeyState::Up,
            lgui: KeyState::Up,
            rgui: KeyState::Up,
            period: KeyState::Up,
            comma: KeyState::Up,
            delete: KeyState::Up,
        }
    }
}

/// A key combination such as `Ctrl+C`: `key` is pressed while, in each
/// group of `ctrl_keys`, one key is held.
pub struct Shortcut {
    ctrl_keys: Vec<Vec<Key>>,
    key: Key,
}

impl Shortcut {
    /// The modifier groups and the key, as plain values.
    pub closed spec fn view(&self) -> (Seq<Seq<Key>>, Key) {
        (Seq::new(self.ctrl_keys@.len(), |i: int| self.ctrl_keys@[i]@), self.key)
    }

    /// Every key that the shortcut names can be read.
    pub closed spec fn wf(&self) -> bool {
        &&& KeysState::readable(self.key)
        &&& forall|i: int, j: int|
            0 <= i < self.ctrl_keys@.len() && 0 <= j < self.ctrl_keys@[i]@.len()
                ==> KeysState::readable(#[trigger] self.ctrl_keys@[i]@[j])
    }

    pub fn new(ctrl_keys: Vec<Vec<Key>>, key: Key) -> (r: Self)
        ensures
            r.view().0 == Seq::new(ctrl_keys@.len(), |i: int| ctrl_keys@[i]@),
            r.view().1 == key,
            r.wf() == (KeysState::readable(key) && forall|i: int, j: int|
                0 <= i < ctrl_keys@.len() && 0 <= j < ctrl_keys@[i]@.len() ==> KeysState::readable(
                    #[trigger] ctrl_keys@[i]@[j],
                )),
    {
        Shortcut { ctrl_keys, key }
    }

    /// `Ctrl+C`, with either control key.
    #[allow(non_snake_case)]
    pub fn COPY() -> (r: Self)
        ensures
            r.wf(),
            r.view() == (seq![seq![Key::LCtrl, Key::RCtrl]], Key::C),
    {
        let group = vec![Key::LCtrl, Key::RCtrl];
        let groups = vec![group];
        let r = Shortcut { ctrl_keys: groups, key: Key::C };
        assert(r.ctrl_keys@.len() == 1);
        assert(r.ctrl_keys@[0]@ =~= seq![Key::LCtrl, Key::RCtrl]);
        assert(r.view().0 =~= seq![seq![Key::LCtrl, Key::RCtrl]]);
        r
    }

    /// `Ctrl+V`, with either control key.
    #[allow(non_snake_case)]
    pub fn PASTE() -> (r: Self)
        ensures
            r.wf(),
            r.view() == (seq![seq![Key::LCtrl, Key::RCtrl]], Key::V),
    {
        let group = vec![Key::LCtrl, Key::RCtrl];
        let groups = vec![group];
        let r = Shortcut { ctrl_keys: groups, key: Key::V };
        assert(r.ctrl_keys@.len() == 1);
        assert(r.ctrl_keys@[0]@ =~= seq![Key::LCtrl, Key::RCtrl]);
        assert(r.view().0 =~= seq![seq![Key::LCtrl, Key::RCtrl]]);
        r
    }

    /// `Ctrl+X`, with either control key.
    #[allow(non_snake_case)]
    pub fn CUT() -> (r: Self)
        ensures
            r.wf(),
            r.view() == (seq![seq![Key::LCtrl, Key::RCtrl]], Key::X),
    {
        let group = vec![Key::LCtrl, Key::RCtrl];
        let groups = vec![group];
        let r = Shortcut { ctrl_keys: groups, key: Key::X };
        assert(r.ctrl_keys@.len() == 1);
        assert(r.ctrl_keys@[0]@ =~= seq![Key::LCtrl, Key::RCtrl]);
        assert(r.view().0 =~= seq![seq![Key::LCtrl, Key::RCtrl]]);
        r
    }

}

/// Writing the state of a key and reading it back gives what was written.
pub proof fn law_key_write_then_read(ks: KeysState, k: Key, s: KeyState)
    requires
        KeysState::readable(k),
    ensures
        ks.with_key(k, s).key(k) == s,
{
}

} // verus!
