use vstd::pervasive::VecAdditionalExecFns;
use vstd::prelude::*;

verus! {

/// Classification of a physical key position. The named variants are the keys
/// with a fixed display name; `Other` is an identified key outside that table,
/// and `Unidentified` is a key the platform could not identify at all.
#[derive(Debug, Clone, Copy, PartialEq, Eq, Structural, Hash)]
pub enum PhysicalKeyCode {
    ControlLeft,
    ControlRight,
    ShiftLeft,
    ShiftRight,
    AltLeft,
    AltRight,
    ArrowUp,
    ArrowRight,
    ArrowDown,
    ArrowLeft,
    CapsLock,
    Tab,
    Escape,
    Fn,
    Enter,
    Backspace,
    Insert,
    Other,
    Unidentified,
}

/// One raw keyboard event as the host delivers it: the physical key it is
/// about, its layout-dependent textual meaning, and whether it went down.
#[derive(Debug, Clone, PartialEq, Eq, Hash)]
pub struct RawKeyEvent {
    /// Stable identifier of the physical key position; equal across repeated
    /// presses of the same key and distinct between different keys.
    pub identity: u64,
    /// Which named key the physical position is, if any.
    pub code: PhysicalKeyCode,
    /// The platform scancode of the key, where one exists.
    pub scancode: Option<u32>,
    /// The textual meaning of the key under the current layout, if it has one.
    pub text: Option<String>,
    /// Whether the key's logical meaning is the named Escape key.
    pub logical_escape: bool,
    /// True for a press, false for a release.
    pub pressed: bool,
}

/// Mathematical image of a [`RawKeyEvent`].
pub ghost struct EventModel {
    pub identity: u64,
    pub code: PhysicalKeyCode,
    pub scancode: Option<u32>,
    pub text: Option<Seq<char>>,
    pub logical_escape: bool,
    pub pressed: bool,
}

impl View for RawKeyEvent {
    type V = EventModel;

    open spec fn view(&self) -> EventModel {
        EventModel {
            identity: self.identity,
            code: self.code,
            scancode: self.scancode,
            text: match self.text {
                Some(t) => Some(t@),
                None => None,
            },
            logical_escape: self.logical_escape,
            pressed: self.pressed,
        }
    }
}

impl RawKeyEvent {
    /// An owned copy whose view is the same as this event's.
    pub fn duplicate(&self) -> (r: RawKeyEvent)
        ensures
            r@ == self@,
    {
        RawKeyEvent {
            identity: self.identity,
            code: self.code,
            scancode: self.scancode,
            text: match &self.text {
                Some(t) => Some(t.clone()),
                None => None,
            },
            logical_escape: self.logical_escape,
            pressed: self.pressed,
        }
    }
}

/// The display name and scancode text of one key, as shown to consumers.
#[derive(Debug, Clone, PartialEq, Eq, Hash)]
pub struct KeyInputButton {
    pub key: String,
    pub code: String,
}

/// Mathematical image of a [`KeyInputButton`].
pub ghost struct ButtonModel {
    pub key: Seq<char>,
    pub code: Seq<char>,
}

impl View for KeyInputButton {
    type V = ButtonModel;

    open spec fn view(&self) -> ButtonModel {
        ButtonModel { key: self.key@, code: self.code@ }
    }
}

/// The snapshot produced for one raw key event: the key the event is about,
/// whether it is now pressed, and every other key currently held down.
#[derive(Debug, Clone, PartialEq, Eq, Hash)]
pub struct KeyInput {
    pub input: KeyInputButton,
    pub pressed: bool,
    pub held_keys: Vec<KeyInputButton>,
}

/// Mathematical image of a [`KeyInput`].
pub ghost struct KeyInputModel {
    pub input: ButtonModel,
    pub pressed: bool,
    pub held_keys: Seq<ButtonModel>,
}

impl View for KeyInput {
    type V = KeyInputModel;

    open spec fn view(&self) -> KeyInputModel {
        KeyInputModel {
            input: self.input@,
            pressed: self.pressed,
            held_keys: self.held_keys@.map_values(|b: KeyInputButton| b@),
        }
    }
}

/// The character that writes the decimal digit `d`.
pub open spec fn dec_digit_char(d: nat) -> char {
    if d == 0 {
        '0'
    } else if d == 1 {
        '1'
    } else if d == 2 {
        '2'
    } else if d == 3 {
        '3'
    } else if d == 4 {
        '4'
    } else if d == 5 {
        '5'
    } else if d == 6 {
        '6'
    } else if d == 7 {
        '7'
    } else if d == 8 {
        '8'
    } else {
        '9'
    }
}

/// The decimal writing of `n`, without leading zeros (except for `n == 0`).
pub open spec fn dec_text(n: nat) -> Seq<char>
    decreases n,
{
    if n < 10 {
        seq![dec_digit_char(n)]
    } else {
        dec_text(n / 10).push(dec_digit_char(n % 10))
    }
}

/// How an optional scancode is written out: `Some(n)` with `n` in decimal,
/// or `None`.
pub open spec fn option_u32_text(sc: Option<u32>) -> Seq<char> {
    match sc {
        Some(n) => "Some("@ + dec_text(n as nat) + ")"@,
        None => "None"@,
    }
}

/// The fallback for keys outside the fixed name table: the event's textual
/// meaning where one exists, else the written-out scancode.
pub open spec fn fallback_name(e: EventModel) -> Seq<char> {
    match e.text {
        Some(t) => t,
        None => option_u32_text(e.scancode),
    }
}

/// The display name of the key an event is about: a fixed lowercase name for
/// the keys in the table, and [`fallback_name`] for every other key.
pub open spec fn display_name(e: EventModel) -> Seq<char> {
    match e.code {
        PhysicalKeyCode::ControlLeft => "lctrl"@,
        PhysicalKeyCode::ControlRight => "rctrl"@,
        PhysicalKeyCode::ShiftLeft => "lshift"@,
        PhysicalKeyCode::ShiftRight => "rshift"@,
        PhysicalKeyCode::AltLeft => "lalt"@,
        PhysicalKeyCode::AltRight => "ralt"@,
        PhysicalKeyCode::ArrowUp => "up"@,
        PhysicalKeyCode::ArrowRight => "right"@,
        PhysicalKeyCode::ArrowDown => "down"@,
        PhysicalKeyCode::ArrowLeft => "left"@,
        PhysicalKeyCode::CapsLock => "capslock"@,
        PhysicalKeyCode::Tab => "tab"@,
        PhysicalKeyCode::Escape => "escape"@,
        PhysicalKeyCode::Fn => "function"@,
        PhysicalKeyCode::Enter => "enter"@,
        PhysicalKeyCode::Backspace => "backspace"@,
        PhysicalKeyCode::Insert => "insert"@,
        PhysicalKeyCode::Other => fallback_name(e),
        PhysicalKeyCode::Unidentified => fallback_name(e),
    }
}

/// The button shown for one event: display name plus written-out scancode.
pub open spec fn button_of(e: EventModel) -> ButtonModel {
    ButtonModel { key: display_name(e), code: option_u32_text(e.scancode) }
}

/// A one-character string for the decimal digit `d`.
fn dec_digit_str(d: u32) -> (r: &'static str)
    requires
        d < 10,
    ensures
        r@ == seq![dec_digit_char(d as nat)],
{
    if d == 0 {
        proof {
            reveal_strlit("0");
            assert("0"@ =~= seq![dec_digit_char(0)]);
        }
        "0"
    } else if d == 1 {
        proof {
            reveal_strlit("1");
            assert("1"@ =~= seq![dec_digit_char(1)]);
        }
        "1"
    } else if d == 2 {
        proof {
            reveal_strlit("2");
            assert("2"@ =~= seq![dec_digit_char(2)]);
        }
        "2"
    } else if d == 3 {
        proof {
            reveal_strlit("3");
            assert("3"@ =~= seq![dec_digit_char(3)]);
        }
        "3"
    } else if d == 4 {
        proof {
            reveal_strlit("4");
            assert("4"@ =~= seq![dec_digit_char(4)]);
        }
        "4"
    } else if d == 5 {
        proof {
            reveal_strlit("5");
            assert("5"@ =~= seq![dec_digit_char(5)]);
        }
        "5"
    } else if d == 6 {
        proof {
            reveal_strlit("6");
            assert("6"@ =~= seq![dec_digit_char(6)]);
        }
        "6"
    } else if d == 7 {
        proof {
            reveal_strlit("7");
            assert("7"@ =~= seq![dec_digit_char(7)]);
        }
        "7"
    } else if d == 8 {
        proof {
            reveal_strlit("8");
            assert("8"@ =~= seq![dec_digit_char(8)]);
        }
        "8"
    } else {
        proof {
            reveal_strlit("9");
            assert("9"@ =~= seq![dec_digit_char(9)]);
        }
        "9"
    }
}

/// The decimal writing of `n`.
fn dec_string(n: u32) -> (r: String)
    ensures
        r@ == dec_text(n as nat),
    decreases n,
{
    if n < 10 {
        String::from_str(dec_digit_str(n))
    } else {
        let front = dec_string(n / 10);
        let r = front.concat(dec_digit_str(n % 10));
        proof {
            assert(r@ =~= dec_text(n as nat));
        }
        r
    }
}

/// Write an optional scancode out as text.
fn option_u32_string(sc: &Option<u32>) -> (r: String)
    ensures
        r@ == option_u32_text(*sc),
{
    match sc {
        Some(n) => {
            let r = String::from_str("Some(").concat(dec_string(*n).as_str()).concat(")");
            proof {
                assert(r@ =~= option_u32_text(Some(*n)));
            }
            r
        },
        None => String::from_str("None"),
    }
}

/// The display name of the key `event` is about: a fixed table for known
/// physical keys, then the event's textual meaning, then the scancode text.
pub fn get_input_key(event: &RawKeyEvent) -> (r: String)
    ensures
        r@ == display_name(event@),
{
    match event.code {
        PhysicalKeyCode::ControlLeft => String::from_str("lctrl"),
        PhysicalKeyCode::ControlRight => String::from_str("rctrl"),
        PhysicalKeyCode::ShiftLeft => String::from_str("lshift"),
        PhysicalKeyCode::ShiftRight => String::from_str("rshift"),
        PhysicalKeyCode::AltLeft => String::from_str("lalt"),
        PhysicalKeyCode::AltRight => String::from_str("ralt"),
        PhysicalKeyCode::ArrowUp => String::from_str("up"),
        PhysicalKeyCode::ArrowRight => String::from_str("right"),
        PhysicalKeyCode::ArrowDown => String::from_str("down"),
        PhysicalKeyCode::ArrowLeft => String::from_str("left"),
        PhysicalKeyCode::CapsLock => String::from_str("capslock"),
        PhysicalKeyCode::Tab => String::from_str("tab"),
        PhysicalKeyCode::Escape => String::from_str("escape"),
        PhysicalKeyCode::Fn => String::from_str("function"),
        PhysicalKeyCode::Enter => String::from_str("enter"),
        PhysicalKeyCode::Backspace => String::from_str("backspace"),
        PhysicalKeyCode::Insert => String::from_str("insert"),
        PhysicalKeyCode::Other => match &event.text {
            Some(t) => t.clone(),
            None => option_u32_string(&event.scancode),
        },
        PhysicalKeyCode::Unidentified => match &event.text {
            Some(t) => t.clone(),
            None => option_u32_string(&event.scancode),
        },
    }
}

/// The scancode of the key `event` is about, written out as text.
pub fn get_input_key_code(event: &RawKeyEvent) -> (r: String)
    ensures
        r@ == option_u32_text(event@.scancode),
{
    option_u32_string(&event.scancode)
}

/// The button derived for one event.
pub fn button_of_event(event: &RawKeyEvent) -> (b: KeyInputButton)
    ensures
        b@ == button_of(event@),
{
    KeyInputButton { key: get_input_key(event), code: get_input_key_code(event) }
}

/// Whether some entry of `s` is about the key with identity `id`.
pub open spec fn has_id(s: Seq<EventModel>, id: u64) -> bool {
    exists|i: int| 0 <= i < s.len() && s[i].identity == id
}

/// The position of the entry about `id`, where one exists.
pub open spec fn spec_index_of(s: Seq<EventModel>, id: u64) -> int {
    choose|i: int| 0 <= i < s.len() && s[i].identity == id
}

/// No two entries are about the same key.
pub open spec fn distinct_ids(s: Seq<EventModel>) -> bool {
    forall|i: int, j: int| 0 <= i < j < s.len() ==> s[i].identity != s[j].identity
}

/// The entries once the one about `id`, if any, is dropped.
pub open spec fn remove_id(s: Seq<EventModel>, id: u64) -> Seq<EventModel> {
    s.filter(|m: EventModel| m.identity != id)
}

/// `s` with `e` recorded as the latest event about its key: the existing
/// entry is overwritten in place, or a new one appended.
pub open spec fn insert_event(s: Seq<EventModel>, e: EventModel) -> Seq<EventModel> {
    if has_id(s, e.identity) {
        s.update(spec_index_of(s, e.identity), e)
    } else {
        s.push(e)
    }
}

/// The pressed-key entries after one event: a press records the event under
/// its key, a release drops whatever entry that key had.
pub open spec fn set_after(s: Seq<EventModel>, e: EventModel) -> Seq<EventModel> {
    if e.pressed {
        insert_event(s, e)
    } else {
        remove_id(s, e.identity)
    }
}

/// The buttons of a run of entries, in order.
pub open spec fn buttons_of(s: Seq<EventModel>) -> Seq<ButtonModel> {
    s.map_values(|m: EventModel| button_of(m))
}

/// The held-key list shown with a snapshot: the buttons of every entry except
/// the one about the key the snapshot itself is about.
pub open spec fn held_of(s: Seq<EventModel>, id: u64) -> Seq<ButtonModel> {
    buttons_of(remove_id(s, id))
}

/// The set of currently pressed keys: for each held-down physical key, the
/// latest raw event about it. Owned by whoever dispatches events and handed
/// by reference into [`get_input`].
pub struct PressedKeySet {
    entries: Vec<RawKeyEvent>,
}

impl View for PressedKeySet {
    type V = Seq<EventModel>;

    closed spec fn view(&self) -> Seq<EventModel> {
        self.entries@.map_values(|e: RawKeyEvent| e@)
    }
}

impl PressedKeySet {
    /// Each key has at most one entry.
    pub open spec fn wf(&self) -> bool {
        distinct_ids(self@)
    }

    /// An empty set: no key is held down.
    pub fn new() -> (s: PressedKeySet)
        ensures
            s.wf(),
            s@ == Seq::<EventModel>::empty(),
    {
        let s = PressedKeySet { entries: Vec::new() };
        proof {
            assert(s@ =~= Seq::<EventModel>::empty());
        }
        s
    }

    /// How many keys are currently held down.
    pub fn len(&self) -> (n: usize)
        ensures
            n == self@.len(),
    {
        self.entries.len()
    }

    /// Where the entry about `id` sits, if the key is held.
    fn find_index(&self, id: u64) -> (r: Option<usize>)
        ensures
            match r {
                Some(i) => i < self@.len() && self@[i as int].identity == id,
                None => !has_id(self@, id),
            },
    {
        let n = self.entries.len();
        let mut i: usize = 0;
        while i < n
            invariant
                i <= n,
                n == self@.len(),
                self@.len() == self.entries@.len(),
                forall|j: int| 0 <= j < i ==> self@[j].identity != id,
            decreases n - i,
        {
            if self.entries[i].identity == id {
                return Some(i);
            }
            i += 1;
        }
        None
    }

    /// Record a press: overwrite the key's entry, or append a new one.
    fn press(&mut self, event: &RawKeyEvent)
        requires
            old(self).wf(),
        ensures
            final(self).wf(),
            final(self)@ == insert_event(old(self)@, event@),
    {
        let copy = event.duplicate();
        match self.find_index(event.identity) {
            Some(i) => {
                let ghost s = self@;
                self.entries.set(i, copy);
                proof {
                    assert(self@ =~= s.update(i as int, event@));
                    let k = spec_index_of(s, event@.identity);
                    assert(0 <= k < s.len() && s[k].identity == event@.identity);
                    assert(k == i as int);
                }
            },
            None => {
                let ghost s = self@;
                self.entries.push(copy);
                proof {
                    assert(self@ =~= s.push(event@));
                }
            },
        }
        proof {
            lemma_insert_event_distinct(old(self)@, event@);
        }
    }

    /// Record a release: drop the key's entry, a no-op if it has none.
    fn release(&mut self, id: u64)
        requires
            old(self).wf(),
        ensures
            final(self).wf(),
            final(self)@ == remove_id(old(self)@, id),
    {
        match self.find_index(id) {
            Some(i) => {
                let ghost s = self@;
                self.entries.remove(i);
                proof {
                    assert(self@ =~= s.remove(i as int));
                    lemma_remove_id_present(s, id, i as int);
                    lemma_remove_id_distinct(s, id);
                }
            },
            None => {
                proof {
                    lemma_remove_id_absent(self@, id);
                    lemma_remove_id_distinct(self@, id);
                }
            },
        }
    }

    /// The buttons of every held key other than `id`, in entry order.
    fn held_excluding(&self, id: u64) -> (v: Vec<KeyInputButton>)
        ensures
            v@.map_values(|b: KeyInputButton| b@) == held_of(self@, id),
    {
        let n = self.entries.len();
        let mut v: Vec<KeyInputButton> = Vec::new();
        let mut i: usize = 0;
        proof {
            reveal(Seq::filter);
            assert(self@.take(0) =~= Seq::<EventModel>::empty());
            assert(v@.map_values(|b: KeyInputButton| b@) =~= held_of(self@.take(0), id));
        }
        while i < n
            invariant
                i <= n,
                n == self@.len(),
                self@.len() == self.entries@.len(),
                forall|j: int| 0 <= j < self@.len() ==> self@[j] == self.entries@[j]@,
                v@.map_values(|b: KeyInputButton| b@) == held_of(self@.take(i as int), id),
            decreases n - i,
        {
            let ghost prev = v@.map_values(|b: KeyInputButton| b@);
            if self.entries[i].identity != id {
                let b = button_of_event(&self.entries[i]);
                v.push(b);
                proof {
                    assert(v@.map_values(|b: KeyInputButton| b@) =~= prev.push(
                        button_of(self@[i as int]),
                    ));
                }
            }
            proof {
                reveal(Seq::filter);
                assert(self@.take(i + 1).drop_last() =~= self@.take(i as int));
                assert(self@.take(i + 1).last() == self@[i as int]);
                assert(remove_id(self@.take(i + 1), id) == if self@[i as int].identity != id {
                    remove_id(self@.take(i as int), id).push(self@[i as int])
                } else {
                    remove_id(self@.take(i as int), id)
                });
                if self@[i as int].identity != id {
                    assert(buttons_of(remove_id(self@.take(i as int), id).push(self@[i as int]))
                        =~= buttons_of(remove_id(self@.take(i as int), id)).push(
                        button_of(self@[i as int]),
                    ));
                }
                assert(v@.map_values(|b: KeyInputButton| b@) == held_of(self@.take(i + 1), id));
            }
            i += 1;
        }
        proof {
            assert(self@.take(n as int) =~= self@);
        }
        v
    }
}

/// Convert one raw key event into a snapshot of what is held down now, and
/// update the pressed-key set to reflect the event.
pub fn get_input(keys: &mut PressedKeySet, event: &RawKeyEvent) -> (r: KeyInput)
    requires
        old(keys).wf(),
    ensures
        final(keys).wf(),
        final(keys)@ == set_after(old(keys)@, event@),
        r@.input == button_of(event@),
        r@.pressed == event@.pressed,
        r@.held_keys == held_of(final(keys)@, event@.identity),
{
    let input = button_of_event(event);
    let pressed = event.pressed;
    if pressed {
        keys.press(event);
    } else {
        keys.release(event.identity);
    }
    let held_keys = keys.held_excluding(event.identity);
    KeyInput { input, pressed, held_keys }
}

/// A sequence all of whose entries avoid `id` is untouched by `remove_id`.
proof fn lemma_remove_id_absent(s: Seq<EventModel>, id: u64)
    requires
        !has_id(s, id),
    ensures
        remove_id(s, id) == s,
    decreases s.len(),
{
    reveal(Seq::filter);
    if s.len() > 0 {
        assert(!has_id(s.drop_last(), id));
        lemma_remove_id_absent(s.drop_last(), id);
        assert(remove_id(s, id) =~= s);
    }
}

/// When exactly one entry is about `id`, dropping it is `remove_id`.
proof fn lemma_remove_id_present(s: Seq<EventModel>, id: u64, i: int)
    requires
        distinct_ids(s),
        0 <= i < s.len(),
        s[i].identity == id,
    ensures
        remove_id(s, id) == s.remove(i),
    decreases s.len(),
{
    reveal(Seq::filter);
    if i == s.len() - 1 {
        assert(!has_id(s.drop_last(), id));
        lemma_remove_id_absent(s.drop_last(), id);
        assert(remove_id(s, id) =~= s.remove(i));
    } else {
        assert(distinct_ids(s.drop_last()));
        lemma_remove_id_present(s.drop_last(), id, i);
        assert(s.last().identity != id);
        assert(remove_id(s, id) =~= s.drop_last().remove(i).push(s.last()));
        assert(s.drop_last().remove(i).push(s.last()) =~= s.remove(i));
    }
}

/// `remove_id` keeps entries distinct, drops `id`, and keeps every other key.
pub proof fn lemma_remove_id_distinct(s: Seq<EventModel>, id: u64)
    requires
        distinct_ids(s),
    ensures
        distinct_ids(remove_id(s, id)),
        !has_id(remove_id(s, id), id),
        forall|id2: u64| id2 != id ==> has_id(remove_id(s, id), id2) == has_id(s, id2),
{
    if has_id(s, id) {
        let i = choose|i: int| 0 <= i < s.len() && s[i].identity == id;
        lemma_remove_id_present(s, id, i);
        let r = s.remove(i);
        assert forall|id2: u64| id2 != id && has_id(s, id2) implies has_id(r, id2) by {
            let j = choose|j: int| 0 <= j < s.len() && s[j].identity == id2;
            if j < i {
                assert(r[j].identity == id2);
            } else {
                assert(r[j - 1].identity == id2);
            }
        }
        assert forall|id2: u64| id2 != id && has_id(r, id2) implies has_id(s, id2) by {
            let j = choose|j: int| 0 <= j < r.len() && r[j].identity == id2;
            if j < i {
                assert(s[j].identity == id2);
            } else {
                assert(s[j + 1].identity == id2);
            }
        }
        assert forall|p: int, q: int| 0 <= p < q < r.len() implies r[p].identity != r[q].identity by {
            if q < i {
                assert(r[p] == s[p] && r[q] == s[q]);
            } else if p < i {
                assert(r[p] == s[p] && r[q] == s[q + 1]);
            } else {
                assert(r[p] == s[p + 1] && r[q] == s[q + 1]);
            }
        }
        assert(!has_id(r, id)) by {
            if has_id(r, id) {
                let j = choose|j: int| 0 <= j < r.len() && r[j].identity == id;
                if j < i {
                    assert(s[j].identity == id);
                } else {
                    assert(s[j + 1].identity == id);
                }
            }
        }
    } else {
        lemma_remove_id_absent(s, id);
    }
}

/// The pressed-key entries after a whole run of events, oldest event first.
pub open spec fn run_events(s0: Seq<EventModel>, es: Seq<EventModel>) -> Seq<EventModel>
    decreases es.len(),
{
    if es.len() == 0 {
        s0
    } else {
        set_after(run_events(s0, es.drop_last()), es.last())
    }
}

/// One event changes exactly its own key's membership: a press records the
/// key, a release drops it, and every other key is untouched.
pub proof fn lemma_set_after_tracks(s: Seq<EventModel>, e: EventModel)
    requires
        distinct_ids(s),
    ensures
        distinct_ids(set_after(s, e)),
        has_id(set_after(s, e), e.identity) == e.pressed,
        forall|id2: u64| id2 != e.identity ==> has_id(set_after(s, e), id2) == has_id(s, id2),
{
    if e.pressed {
        lemma_insert_event_distinct(s, e);
    } else {
        lemma_remove_id_distinct(s, e.identity);
    }
}

/// A run of events keeps the entries distinct.
pub proof fn lemma_run_events_distinct(s0: Seq<EventModel>, es: Seq<EventModel>)
    requires
        distinct_ids(s0),
    ensures
        distinct_ids(run_events(s0, es)),
    decreases es.len(),
{
    if es.len() > 0 {
        lemma_run_events_distinct(s0, es.drop_last());
        lemma_set_after_tracks(run_events(s0, es.drop_last()), es.last());
    }
}

/// Once event `j` presses a key, the tracker state after any later event `i`
/// still holds that key, as long as no event in between released it.
pub proof fn lemma_pressed_key_stays(s0: Seq<EventModel>, es: Seq<EventModel>, j: int, i: int)
    requires
        distinct_ids(s0),
        0 <= j <= i < es.len(),
        es[j].pressed,
        forall|k: int| j < k <= i && (#[trigger] es[k]).identity == es[j].identity
            ==> es[k].pressed,
    ensures
        has_id(run_events(s0, es.take(i + 1)), es[j].identity),
    decreases i - j,
{
    let id = es[j].identity;
    assert(es.take(i + 1).drop_last() =~= es.take(i));
    assert(es.take(i + 1).last() == es[i]);
    lemma_run_events_distinct(s0, es.take(i));
    lemma_set_after_tracks(run_events(s0, es.take(i)), es[i]);
    if i > j {
        lemma_pressed_key_stays(s0, es, j, i - 1);
    }
}

/// Once event `j` releases a key, the tracker state after any later event `i`
/// no longer holds that key, as long as no event in between pressed it again.
pub proof fn lemma_released_key_stays_out(s0: Seq<EventModel>, es: Seq<EventModel>, j: int, i: int)
    requires
        distinct_ids(s0),
        0 <= j <= i < es.len(),
        !es[j].pressed,
        forall|k: int| j < k <= i && (#[trigger] es[k]).identity == es[j].identity
            ==> !es[k].pressed,
    ensures
        !has_id(run_events(s0, es.take(i + 1)), es[j].identity),
    decreases i - j,
{
    assert(es.take(i + 1).drop_last() =~= es.take(i));
    assert(es.take(i + 1).last() == es[i]);
    lemma_run_events_distinct(s0, es.take(i));
    lemma_set_after_tracks(run_events(s0, es.take(i)), es[i]);
    if i > j {
        lemma_released_key_stays_out(s0, es, j, i - 1);
    }
}

/// What a snapshot's held list shows of one key: an entry about `id` survives
/// the exclusion of the snapshot's own key `cur` exactly when `id` is another
/// key that the tracker holds.
pub proof fn lemma_held_membership(s: Seq<EventModel>, cur: u64, id: u64)
    requires
        distinct_ids(s),
    ensures
        has_id(remove_id(s, cur), id) == (id != cur && has_id(s, id)),
{
    lemma_remove_id_distinct(s, cur);
}

/// After a press of a key and before its next release, every snapshot taken
/// for an event about another key lists the pressed key among its held keys.
pub proof fn lemma_press_held_in_snapshots(s0: Seq<EventModel>, es: Seq<EventModel>, j: int, i: int)
    requires
        distinct_ids(s0),
        0 <= j <= i < es.len(),
        es[j].pressed,
        forall|k: int| j < k <= i && (#[trigger] es[k]).identity == es[j].identity
            ==> es[k].pressed,
        es[i].identity != es[j].identity,
    ensures
        has_id(remove_id(run_events(s0, es.take(i + 1)), es[i].identity), es[j].identity),
{
    lemma_pressed_key_stays(s0, es, j, i);
    lemma_run_events_distinct(s0, es.take(i + 1));
    lemma_held_membership(run_events(s0, es.take(i + 1)), es[i].identity, es[j].identity);
}

/// After a release of a key and before its next press, no snapshot lists the
/// released key among its held keys.
pub proof fn lemma_release_not_held_in_snapshots(
    s0: Seq<EventModel>,
    es: Seq<EventModel>,
    j: int,
    i: int,
)
    requires
        distinct_ids(s0),
        0 <= j <= i < es.len(),
        !es[j].pressed,
        forall|k: int| j < k <= i && (#[trigger] es[k]).identity == es[j].identity
            ==> !es[k].pressed,
    ensures
        !has_id(remove_id(run_events(s0, es.take(i + 1)), es[i].identity), es[j].identity),
{
    lemma_released_key_stays_out(s0, es, j, i);
    lemma_run_events_distinct(s0, es.take(i + 1));
    lemma_held_membership(run_events(s0, es.take(i + 1)), es[i].identity, es[j].identity);
}

/// Releasing a key that is not held leaves the pressed-key set unchanged, and
/// the snapshot such an event produces is still a fully formed one.
pub proof fn lemma_release_absent_noop(s: Seq<EventModel>, e: EventModel)
    requires
        !e.pressed,
        !has_id(s, e.identity),
    ensures
        set_after(s, e) == s,
{
    lemma_remove_id_absent(s, e.identity);
}

/// `insert_event` keeps entries distinct, records `e`'s key, and keeps every
/// other key exactly as it was.
pub proof fn lemma_insert_event_distinct(s: Seq<EventModel>, e: EventModel)
    requires
        distinct_ids(s),
    ensures
        distinct_ids(insert_event(s, e)),
        has_id(insert_event(s, e), e.identity),
        forall|id2: u64| id2 != e.identity ==> has_id(insert_event(s, e), id2) == has_id(s, id2),
{
    let r = insert_event(s, e);
    if has_id(s, e.identity) {
        let i = spec_index_of(s, e.identity);
        assert(0 <= i < s.len() && s[i].identity == e.identity);
        assert(r[i].identity == e.identity);
        assert forall|id2: u64| id2 != e.identity && has_id(s, id2) implies has_id(r, id2) by {
            let j = choose|j: int| 0 <= j < s.len() && s[j].identity == id2;
            assert(r[j].identity == id2);
        }
        assert forall|id2: u64| id2 != e.identity && has_id(r, id2) implies has_id(s, id2) by {
            let j = choose|j: int| 0 <= j < r.len() && r[j].identity == id2;
            assert(s[j].identity == id2);
        }
    } else {
        assert(r[r.len() - 1].identity == e.identity);
        assert forall|id2: u64| id2 != e.identity && has_id(r, id2) implies has_id(s, id2) by {
            let j = choose|j: int| 0 <= j < r.len() && r[j].identity == id2;
            assert(s[j].identity == id2);
        }
        assert forall|id2: u64| id2 != e.identity && has_id(s, id2) implies has_id(r, id2) by {
            let j = choose|j: int| 0 <= j < s.len() && s[j].identity == id2;
            assert(r[j].identity == id2);
        }
    }
}

} // verus!
