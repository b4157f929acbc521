//! Keyboard handling of the free camera.
use vstd::prelude::*;

verus! {

/// Keys the engine reacts to; every other key is `Other`.
#[derive(Clone, Copy, Debug, PartialEq, Eq, Structural)]
pub enum Key {
    KeyW,
    KeyA,
    KeyS,
    KeyD,
    ArrowUp,
    ArrowLeft,
    ArrowDown,
    ArrowRight,
    Escape,
    Other,
}

/// Which movement keys of the free camera are held down.
#[derive(Clone, Copy, Debug, PartialEq, Eq, Structural)]
pub struct MoveKeys {
    pub is_forward_pressed: bool,
    pub is_backward_pressed: bool,
    pub if_left_pressed: bool,
    pub if_right_pressed: bool,
}

/// Where a key event goes.
#[derive(Clone, Copy, Debug, PartialEq, Eq, Structural)]
pub enum KeyRoute {
    /// Escape pressed: close the application (native builds).
    Exit,
    /// Any other event is given to the camera controller.
    Camera,
}

/// Movement direction a key stands for: 0 forward, 1 left, 2 backward, 3 right.
pub open spec fn movement_of(key: Key) -> Option<int> {
    match key {
        Key::KeyW | Key::ArrowUp => Some(0),
        Key::KeyA | Key::ArrowLeft => Some(1),
        Key::KeyS | Key::ArrowDown => Some(2),
        Key::KeyD | Key::ArrowRight => Some(3),
        _ => None,
    }
}

/// The flag of direction `d`.
pub open spec fn flag(k: MoveKeys, d: int) -> bool {
    if d == 0 {
        k.is_forward_pressed
    } else if d == 1 {
        k.if_left_pressed
    } else if d == 2 {
        k.is_backward_pressed
    } else {
        k.if_right_pressed
    }
}

impl MoveKeys {
    /// No key held.
    pub fn new() -> (k: Self)
        ensures
            forall|d: int| !flag(k, d),
    {
        MoveKeys {
            is_forward_pressed: false,
            is_backward_pressed: false,
            if_left_pressed: false,
            if_right_pressed: false,
        }
    }

    /// Records a press or release; returns whether the key moves the camera.
    /// WASD and the arrows set the flag of their direction to `is_pressed`.
    pub fn handle_key(&mut self, code: Key, is_pressed: bool) -> (handled: bool)
        ensures
            handled == (movement_of(code) is Some),
            forall|d: int|
                #![trigger flag(*final(self), d)]
                0 <= d < 4 ==> flag(*final(self), d) == if movement_of(code) == Some(d) {
                    is_pressed
                } else {
                    flag(*old(self), d)
                },
            (code == Key::KeyW || code == Key::ArrowUp) ==> *final(self) == (MoveKeys {
                is_forward_pressed: is_pressed,
                ..*old(self)
            }),
            (code == Key::KeyA || code == Key::ArrowLeft) ==> *final(self) == (MoveKeys {
                if_left_pressed: is_pressed,
                ..*old(self)
            }),
            (code == Key::KeyS || code == Key::ArrowDown) ==> *final(self) == (MoveKeys {
                is_backward_pressed: is_pressed,
                ..*old(self)
            }),
            (code == Key::KeyD || code == Key::ArrowRight) ==> *final(self) == (MoveKeys {
                if_right_pressed: is_pressed,
                ..*old(self)
            }),
            (code == Key::Escape || code == Key::Other) ==> *final(self) == *old(self) && !handled,
    {
        match code {
            Key::KeyW | Key::ArrowUp => {
                self.is_forward_pressed = is_pressed;
                true
            },
            Key::KeyA | Key::ArrowLeft => {
                self.if_left_pressed = is_pressed;
                true
            },
            Key::KeyS | Key::ArrowDown => {
                self.is_backward_pressed = is_pressed;
                true
            },
            Key::KeyD | Key::ArrowRight => {
                self.if_right_pressed = is_pressed;
                true
            },
            _ => false,
        }
    }
}

/// Routes a key event: a pressed Escape exits, everything else goes to the camera.
pub fn route_key(code: Key, is_pressed: bool) -> (route: KeyRoute)
    ensures
        route == (if code == Key::Escape && is_pressed {
            KeyRoute::Exit
        } else {
            KeyRoute::Camera
        }),
{
    if code == Key::Escape && is_pressed {
        KeyRoute::Exit
    } else {
        KeyRoute::Camera
    }
}

/// The keys steer as on a keyboard: W and the up arrow move forward, A and
/// the left arrow move left, S and the down arrow move backward, D and the
/// right arrow move right, and the flag each one sets is that field of the
/// held keys; no other key moves the camera.
pub proof fn lemma_key_directions(k: MoveKeys)
    ensures
        flag(k, movement_of(Key::KeyW)->Some_0) == k.is_forward_pressed,
        flag(k, movement_of(Key::ArrowUp)->Some_0) == k.is_forward_pressed,
        flag(k, movement_of(Key::KeyA)->Some_0) == k.if_left_pressed,
        flag(k, movement_of(Key::ArrowLeft)->Some_0) == k.if_left_pressed,
        flag(k, movement_of(Key::KeyS)->Some_0) == k.is_backward_pressed,
        flag(k, movement_of(Key::ArrowDown)->Some_0) == k.is_backward_pressed,
        flag(k, movement_of(Key::KeyD)->Some_0) == k.if_right_pressed,
        flag(k, movement_of(Key::ArrowRight)->Some_0) == k.if_right_pressed,
        movement_of(Key::Escape) is None,
        movement_of(Key::Other) is None,
{
}

/// Releasing a key undoes pressing it: press then release of the same key
/// leaves every movement flag as it was before the press, provided the flag
/// of that key was released to begin with.
pub proof fn lemma_press_release(k0: MoveKeys, k1: MoveKeys, k2: MoveKeys, code: Key)
    requires
        movement_of(code) is Some,
        !flag(k0, movement_of(code)->0),
        forall|d: int|
            #![trigger flag(k1, d)]
            0 <= d < 4 ==> flag(k1, d) == if movement_of(code) == Some(d) {
                true
            } else {
                flag(k0, d)
            },
        forall|d: int|
            #![trigger flag(k2, d)]
            0 <= d < 4 ==> flag(k2, d) == if movement_of(code) == Some(d) {
                false
            } else {
                flag(k1, d)
            },
    ensures
        k2 == k0,
{
    assert(flag(k2, 0) == flag(k0, 0));
    assert(flag(k2, 1) == flag(k0, 1));
    assert(flag(k2, 2) == flag(k0, 2));
    assert(flag(k2, 3) == flag(k0, 3));
}

} // verus!
