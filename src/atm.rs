//! The automated teller machine gives you cash after you swipe your card and
//! enter your pin. It may refuse if it holds too little cash, if no card was
//! swiped, or if the pin entered is wrong.

use vstd::prelude::*;

use crate::traits::{digest, hash, StateMachine};

verus! {

/// The keys on the keypad.
#[derive(Debug, PartialEq, Eq, Structural, Clone, Copy, Hash)]
pub enum Key {
    One,
    Two,
    Three,
    Four,
    Enter,
}

/// The byte that stands for a key when it is hashed.
pub open spec fn key_code(k: Key) -> u8 {
    match k {
        Key::One => 1,
        Key::Two => 2,
        Key::Three => 3,
        Key::Four => 4,
        Key::Enter => 0,
    }
}

impl Key {
    /// The byte that stands for this key when it is hashed.
    pub fn code(&self) -> (r: u8)
        ensures
            r == key_code(*self),
    {
        match self {
            Key::One => 1,
            Key::Two => 2,
            Key::Three => 3,
            Key::Four => 4,
            Key::Enter => 0,
        }
    }

    /// The text shown for this key: its digit, or `Enter`.
    pub fn to_string(&self) -> (r: String)
        ensures
            r@ == key_label(*self)@,
    {
        match self {
            Key::One => "1".to_owned(),
            Key::Two => "2".to_owned(),
            Key::Three => "3".to_owned(),
            Key::Four => "4".to_owned(),
            Key::Enter => "Enter".to_owned(),
        }
    }
}

/// The text shown for a key.
pub open spec fn key_label(k: Key) -> &'static str {
    match k {
        Key::One => "1",
        Key::Two => "2",
        Key::Three => "3",
        Key::Four => "4",
        Key::Enter => "Enter",
    }
}

/// The short name of a key.
pub open spec fn key_name(k: Key) -> &'static str {
    match k {
        Key::One => "1",
        Key::Two => "2",
        Key::Three => "3",
        Key::Four => "4",
        Key::Enter => "enter",
    }
}

impl From<Key> for &'static str {
    fn from(key: Key) -> (r: &'static str) {
        match key {
            Key::One => "1",
            Key::Two => "2",
            Key::Three => "3",
            Key::Four => "4",
            Key::Enter => "enter",
        }
    }
}

impl vstd::std_specs::convert::FromSpecImpl<Key> for &'static str {
    open spec fn obeys_from_spec() -> bool {
        true
    }

    open spec fn from_spec(v: Key) -> &'static str {
        key_name(v)
    }
}

/// Something you can do to the machine.
#[derive(Debug, PartialEq, Eq, Structural, Clone, Copy)]
pub enum Action {
    /// Swipe your card. The attached value is the digest of the pin that
    /// should be keyed in next.
    SwipeCard(u64),
    /// Press a key on the keypad.
    PressKey(Key),
}

/// The stages of authentication.
#[derive(Debug, PartialEq, Eq, Structural, Clone, Copy)]
pub enum Auth {
    /// No session has begun: waiting for a card.
    Waiting,
    /// A card was swiped with the enclosed pin digest: waiting for the pin.
    Authenticating(u64),
    /// The pin was right: waiting for the amount to withdraw.
    Authenticated,
}

impl Default for Auth {
    fn default() -> (r: Auth)
        ensures
            r == Auth::Waiting,
    {
        Auth::Waiting
    }
}

/// The machine. Withdrawals are bounded only by the cash inside it.
#[derive(Debug, PartialEq, Clone)]
pub struct Atm {
    /// How much money is in the machine.
    pub cash_inside: u64,
    /// The machine's authentication status.
    pub expected_pin_hash: Auth,
    /// The keys pressed since the last `Enter`.
    pub keystroke_register: Vec<Key>,
}

impl Atm {
    /// A machine holding `cash`, waiting for a card, with an empty buffer.
    pub fn new(cash: u64) -> (r: Atm)
        ensures
            r@ == cleared(cash, Auth::Waiting),
            well_formed(r@),
    {
        Atm { cash_inside: cash, expected_pin_hash: Auth::default(), keystroke_register: Vec::new() }
    }
}

/// The abstract snapshot of a machine.
pub struct AtmView {
    pub cash: u64,
    pub phase: Auth,
    pub keys: Seq<Key>,
}

impl View for Atm {
    type V = AtmView;

    open spec fn view(&self) -> AtmView {
        AtmView {
            cash: self.cash_inside,
            phase: self.expected_pin_hash,
            keys: self.keystroke_register@,
        }
    }
}

/// Whether a key is one of the four digit keys.
pub open spec fn is_digit(k: Key) -> bool {
    k != Key::Enter
}

/// Every key of the sequence is a digit.
pub open spec fn all_digits(keys: Seq<Key>) -> bool {
    forall|i: int| 0 <= i < keys.len() ==> is_digit(#[trigger] keys[i])
}

/// The numeric value of a digit key.
pub open spec fn digit_value(k: Key) -> nat {
    match k {
        Key::One => 1,
        Key::Two => 2,
        Key::Three => 3,
        Key::Four => 4,
        Key::Enter => 0,
    }
}

/// The value of a digit sequence read in base ten, most significant first.
pub open spec fn decimal_value(keys: Seq<Key>) -> nat
    decreases keys.len(),
{
    if keys.len() == 0 {
        0
    } else {
        decimal_value(keys.drop_last()) * 10 + digit_value(keys.last())
    }
}

/// The amount a key sequence asks for: its decimal value when it is a
/// non-empty run of digits whose value fits in a `u64`, and zero otherwise.
pub open spec fn amount(keys: Seq<Key>) -> nat {
    if keys.len() > 0 && all_digits(keys) && decimal_value(keys) <= u64::MAX {
        decimal_value(keys)
    } else {
        0
    }
}

/// A snapshot with the given cash and phase and an empty buffer.
pub open spec fn cleared(cash: u64, phase: Auth) -> AtmView {
    AtmView { cash, phase, keys: Seq::empty() }
}

/// The transition relation of the machine, as a function.
pub open spec fn step(s: AtmView, a: Action) -> AtmView {
    match a {
        Action::SwipeCard(d) => AtmView { phase: Auth::Authenticating(d), ..s },
        Action::PressKey(k) => match s.phase {
            Auth::Waiting => s,
            Auth::Authenticating(d) => {
                if k == Key::Enter {
                    if digest(s.keys) == d {
                        cleared(s.cash, Auth::Authenticated)
                    } else {
                        cleared(s.cash, Auth::Waiting)
                    }
                } else {
                    AtmView { keys: s.keys.push(k), ..s }
                }
            },
            Auth::Authenticated => {
                if k == Key::Enter {
                    if amount(s.keys) > s.cash {
                        cleared(s.cash, Auth::Waiting)
                    } else {
                        cleared((s.cash - amount(s.keys)) as u64, Auth::Waiting)
                    }
                } else {
                    AtmView { keys: s.keys.push(k), ..s }
                }
            },
        },
    }
}

/// The snapshot reached from `s` by taking the actions in order.
pub open spec fn run(s: AtmView, actions: Seq<Action>) -> AtmView
    decreases actions.len(),
{
    if actions.len() == 0 {
        s
    } else {
        step(run(s, actions.drop_last()), actions.last())
    }
}

/// The actions of pressing the given keys in order.
pub open spec fn presses(keys: Seq<Key>) -> Seq<Action> {
    keys.map_values(|k: Key| Action::PressKey(k))
}

/// A snapshot that normal operation can reach: the buffer holds digits only,
/// and it is empty while no session is open.
pub open spec fn well_formed(s: AtmView) -> bool {
    &&& all_digits(s.keys)
    &&& s.phase == Auth::Waiting ==> s.keys.len() == 0
}

/// Equal snapshots under equal actions step to equal snapshots: what
/// `next_state` returns is fixed by its arguments.
pub proof fn lemma_next_state_deterministic(s1: Atm, s2: Atm, a: Action, r1: Atm, r2: Atm)
    requires
        s1@ == s2@,
        r1@ == step(s1@, a),
        r2@ == step(s2@, a),
    ensures
        r1@ == r2@,
{
}

/// Pressing any key while no session is open changes nothing.
pub proof fn lemma_idle_absorbs_keys(s: AtmView, k: Key)
    requires
        s.phase == Auth::Waiting,
    ensures
        step(s, Action::PressKey(k)) == s,
{
}

/// A swipe starts authentication against its digest from any phase, and
/// leaves the cash and the buffer as they were.
pub proof fn lemma_swipe_rearms(s: AtmView, d: u64)
    ensures
        step(s, Action::SwipeCard(d)).phase == Auth::Authenticating(d),
        step(s, Action::SwipeCard(d)).cash == s.cash,
        step(s, Action::SwipeCard(d)).keys == s.keys,
{
}

/// Digits pressed while authenticating are kept in the order pressed; `Enter`
/// then logs in exactly when the digest of those digits is the card's, and
/// clears the buffer either way.
pub proof fn lemma_pin_entry(cash: u64, d: u64, pin: Seq<Key>)
    requires
        all_digits(pin),
    ensures
        run(cleared(cash, Auth::Authenticating(d)), presses(pin))
            == (AtmView { cash, phase: Auth::Authenticating(d), keys: pin }),
        run(cleared(cash, Auth::Authenticating(d)), presses(pin).push(Action::PressKey(Key::Enter)))
            == if digest(pin) == d {
            cleared(cash, Auth::Authenticated)
        } else {
            cleared(cash, Auth::Waiting)
        },
{
    lemma_entry_keeps_digits(cash, Auth::Authenticating(d), pin);
    let acts = presses(pin).push(Action::PressKey(Key::Enter));
    assert(acts.drop_last() == presses(pin));
}

/// Digits pressed after logging in, then `Enter`: the amount they spell is
/// paid out when the machine holds that much, and the session ends either way.
pub proof fn lemma_withdrawal(cash: u64, digits: Seq<Key>)
    requires
        all_digits(digits),
    ensures
        run(cleared(cash, Auth::Authenticated), presses(digits).push(Action::PressKey(Key::Enter)))
            == if amount(digits) > cash {
            cleared(cash, Auth::Waiting)
        } else {
            cleared((cash - amount(digits)) as u64, Auth::Waiting)
        },
{
    lemma_entry_keeps_digits(cash, Auth::Authenticated, digits);
    let acts = presses(digits).push(Action::PressKey(Key::Enter));
    assert(acts.drop_last() == presses(digits));
}

/// In a session, digit presses append to the buffer in order.
proof fn lemma_entry_keeps_digits(cash: u64, phase: Auth, keys: Seq<Key>)
    requires
        phase != Auth::Waiting,
        all_digits(keys),
    ensures
        run(cleared(cash, phase), presses(keys)) == (AtmView { cash, phase, keys }),
    decreases keys.len(),
{
    if keys.len() == 0 {
        assert(presses(keys).len() == 0);
        assert(cleared(cash, phase).keys == keys);
    } else {
        let init = keys.drop_last();
        assert(all_digits(init)) by {
            assert forall|i: int| 0 <= i < init.len() implies is_digit(#[trigger] init[i]) by {
                assert(init[i] == keys[i]);
            }
        }
        lemma_entry_keeps_digits(cash, phase, init);
        assert(presses(keys).drop_last() == presses(init));
        assert(presses(keys).last() == Action::PressKey(keys.last()));
        assert(is_digit(keys[keys.len() - 1]));
        assert(init.push(keys.last()) == keys);
    }
}

/// Every step keeps a snapshot well formed, and no step adds cash.
pub proof fn lemma_step_preserves_well_formed(s: AtmView, a: Action)
    requires
        well_formed(s),
    ensures
        well_formed(step(s, a)),
        step(s, a).cash <= s.cash,
{
    let r = step(s, a);
    assert(all_digits(r.keys)) by {
        if r.keys.len() == s.keys.len() + 1 {
            assert forall|i: int| 0 <= i < r.keys.len() implies is_digit(#[trigger] r.keys[i]) by {
                if i < s.keys.len() {
                    assert(r.keys[i] == s.keys[i]);
                }
            }
        }
    }
}

/// The amount that a buffer of keys asks for, read as an unsigned decimal
/// number; zero when the buffer is empty, holds a non-digit, or overflows.
pub fn parse_amount(keys: &[Key]) -> (r: u64)
    ensures
        r == amount(keys@),
{
    let n = keys.len();
    let mut value: u64 = 0;
    let mut overflow = false;
    for i in 0..n
        invariant
            n == keys@.len(),
            all_digits(keys@.take(i as int)),
            !overflow ==> value == decimal_value(keys@.take(i as int)),
            overflow ==> decimal_value(keys@.take(i as int)) > u64::MAX,
    {
        let k = keys[i];
        let ghost before = keys@.take(i as int);
        assert(keys@.take(i + 1).drop_last() == before);
        if k == Key::Enter {
            return 0;
        }
        let d: u64 = k.code() as u64;
        assert(d == digit_value(k));
        if !overflow {
            match value.checked_mul(10) {
                Some(m) => match m.checked_add(d) {
                    Some(v) => {
                        value = v;
                    },
                    None => {
                        overflow = true;
                    },
                },
                None => {
                    overflow = true;
                },
            }
        }
        assert(all_digits(keys@.take(i + 1)));
    }
    assert(keys@.take(n as int) == keys@);
    if n == 0 || overflow {
        0
    } else {
        value
    }
}

/// Copies a buffer of keys.
fn copy_keys(keys: &Vec<Key>) -> (r: Vec<Key>)
    ensures
        r@ == keys@,
{
    let mut r: Vec<Key> = Vec::new();
    let n = keys.len();
    for i in 0..n
        invariant
            n == keys@.len(),
            r@ == keys@.take(i as int),
    {
        r.push(keys[i]);
        assert(keys@.take(i + 1) == keys@.take(i as int).push(keys@[i as int]));
    }
    assert(keys@.take(n as int) == keys@);
    r
}

impl StateMachine for Atm {
    type State = Atm;

    type Transition = Action;

    fn next_state(starting_state: &Atm, t: &Action) -> (r: Atm)
        ensures
            r@ == step(starting_state@, *t),
    {
        let cash = starting_state.cash_inside;
        match *t {
            Action::SwipeCard(pin_hash) => Atm {
                cash_inside: cash,
                expected_pin_hash: Auth::Authenticating(pin_hash),
                keystroke_register: copy_keys(&starting_state.keystroke_register),
            },
            Action::PressKey(key) => match starting_state.expected_pin_hash {
                Auth::Waiting => Atm {
                    cash_inside: cash,
                    expected_pin_hash: Auth::Waiting,
                    keystroke_register: copy_keys(&starting_state.keystroke_register),
                },
                Auth::Authenticating(pin_hash) => {
                    if key == Key::Enter {
                        if pin_hash == hash(starting_state.keystroke_register.as_slice()) {
                            Atm {
                                cash_inside: cash,
                                expected_pin_hash: Auth::Authenticated,
                                keystroke_register: Vec::new(),
                            }
                        } else {
                            Atm {
                                cash_inside: cash,
                                expected_pin_hash: Auth::Waiting,
                                keystroke_register: Vec::new(),
                            }
                        }
                    } else {
                        let mut keys = copy_keys(&starting_state.keystroke_register);
                        keys.push(key);
                        Atm {
                            cash_inside: cash,
                            expected_pin_hash: Auth::Authenticating(pin_hash),
                            keystroke_register: keys,
                        }
                    }
                },
                Auth::Authenticated => {
                    if key == Key::Enter {
                        let amount = parse_amount(starting_state.keystroke_register.as_slice());
                        if amount > cash {
                            // Not enough cash in the machine.
                            Atm {
                                cash_inside: cash,
                                expected_pin_hash: Auth::Waiting,
                                keystroke_register: Vec::new(),
                            }
                        } else {
                            Atm {
                                cash_inside: cash - amount,
                                expected_pin_hash: Auth::Waiting,
                                keystroke_register: Vec::new(),
                            }
                        }
                    } else {
                        let mut keys = copy_keys(&starting_state.keystroke_register);
                        keys.push(key);
                        Atm {
                            cash_inside: cash,
                            expected_pin_hash: Auth::Authenticated,
                            keystroke_register: keys,
                        }
                    }
                },
            },
        }
    }
}

} // verus!
