use vstd::prelude::*;

verus! {

/// Number of keys on the hexadecimal keypad.
pub const KEY_COUNT: usize = 16;

/// The lowest-indexed pressed key at or above `i`, if any.
pub open spec fn lowest_pressed_from(keys: Seq<bool>, i: int) -> Option<u8>
    decreases KEY_COUNT - i,
{
    if i < 0 || i >= KEY_COUNT {
        None
    } else if keys[i] {
        Some(i as u8)
    } else {
        lowest_pressed_from(keys, i + 1)
    }
}

/// The lowest-indexed pressed key, if any.
pub open spec fn lowest_pressed(keys: Seq<bool>) -> Option<u8> {
    lowest_pressed_from(keys, 0)
}

/// A key found by `lowest_pressed_from` is held down.
pub proof fn lemma_lowest_pressed_is_pressed(keys: Seq<bool>, i: int)
    requires
        0 <= i <= KEY_COUNT,
        keys.len() == KEY_COUNT,
    ensures
        lowest_pressed_from(keys, i) matches Some(k) ==> keys[k as int],
    decreases KEY_COUNT - i,
{
    if i < KEY_COUNT && !keys[i] {
        lemma_lowest_pressed_is_pressed(keys, i + 1);
    }
}

/// The sixteen keys of the keypad, `true` while held down.
pub struct Keyboard {
    keys: [bool; 16],
}

impl View for Keyboard {
    type V = Seq<bool>;

    closed spec fn view(&self) -> Seq<bool> {
        self.keys@
    }
}

/// The keypad always holds sixteen keys.
pub broadcast proof fn lemma_keyboard_len(k: &Keyboard)
    ensures
        #[trigger] k@.len() == KEY_COUNT,
{
}

impl Keyboard {
    /// A keypad with every key released.
    pub fn new() -> (r: Keyboard)
        ensures
            r@ == Seq::new(KEY_COUNT as nat, |i: int| false),
    {
        let r = Keyboard { keys: [false; 16] };
        assert(r@ =~= Seq::new(KEY_COUNT as nat, |i: int| false));
        r
    }

    /// Whether `key` is held down.
    pub fn is_key_pressed(&self, key: u8) -> (r: bool)
        requires
            key < KEY_COUNT,
        ensures
            r == self@[key as int],
    {
        self.keys[key as usize]
    }

    /// Records `key` as held down or released.
    pub fn set_key(&mut self, key: u8, pressed: bool)
        requires
            key < KEY_COUNT,
        ensures
            final(self)@ == old(self)@.update(key as int, pressed),
    {
        self.keys[key as usize] = pressed;
    }

    /// The lowest-indexed key that is held down, or `None` when none is.
    pub fn get_pressed_key(&self) -> (r: Option<u8>)
        ensures
            r == lowest_pressed(self@),
            r matches Some(k) ==> k < KEY_COUNT && self@[k as int] && forall|j: int|
                0 <= j < k ==> !self@[j],
            r is None ==> forall|j: int| 0 <= j < KEY_COUNT ==> !self@[j],
    {
        let mut i: usize = 0;
        while i < KEY_COUNT
            invariant
                i <= KEY_COUNT,
                self@.len() == KEY_COUNT,
                forall|j: int| 0 <= j < i ==> !self@[j],
                lowest_pressed(self@) == lowest_pressed_from(self@, i as int),
            decreases KEY_COUNT - i,
        {
            if self.keys[i] {
                return Some(i as u8);
            }
            i = i + 1;
        }
        None
    }
}

impl Default for Keyboard {
    fn default() -> (r: Keyboard)
        ensures
            r@ == Seq::new(KEY_COUNT as nat, |i: int| false),
    {
        Keyboard::new()
    }
}

} // verus!
