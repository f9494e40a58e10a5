//! A scan that tells which texts may be handed to the parser of documents.
//!
//! The parser does not return on every text. It keeps the keys of the
//! objects that are open in a buffer whose places it counts in sixteen bits;
//! it multiplies an exponent out digit by digit in a machine word; it calls
//! itself once for every array and object that is open; and after a comma
//! before the closing brace of an inner object it loses its place. The scan
//! follows the text as the parser does, character by character, and stops
//! where the parser stops with an error. A text is refused only where the
//! parser would run into one of these on its way.

use vstd::prelude::*;
use vstd::string::StrSliceExecFns;

verus! {

/// How many arrays and objects may be open at once.
pub const MAX_DEPTH: u64 = 64;

/// How many bytes the keys of the open objects may have together.
pub const MAX_KEYS: u64 = 0xFFFF;

/// How large an exponent may be.
pub const MAX_EXPONENT: u64 = 0xFFFF_FFFF;

/// How many characters a text may have.
pub const MAX_TEXT: u64 = 0xFFFF_FFFF;

/// The largest whole number that the parser reads.
pub const MAX_NATURAL: u64 = 0xFFFF_FFFF_FFFF_FFFF;

/// The largest whole number that the parser reads behind a minus sign.
pub const MAX_NEGATIVE: u64 = 0x8000_0000_0000_0000;

/// Where in a document the scan is.
#[derive(Clone, Copy, Debug, PartialEq, Eq, Structural)]
pub enum Phase {
    /// Before the one value of the document.
    Start,
    /// Behind `[`: before a value or `]`.
    ArrayFirst,
    /// Behind a comma in an array: before a value.
    ArrayNext,
    /// Behind `{`: before a key or `}`.
    ObjectFirst,
    /// Behind a comma in an object: before a key.
    ObjectNext,
    /// Behind a key: before the colon.
    Colon,
    /// Behind the colon: before a value.
    ObjectValue,
    /// Behind a value.
    After,
    /// In a string.
    Str,
    /// In a string, behind a backslash.
    StrEscape,
    /// In a string, in the four digits behind `\u`.
    StrHex,
    /// In a string, behind the first half of a pair: before the backslash
    /// of the second half.
    StrLowSlash,
    /// And before its `u`.
    StrLowU,
    /// Behind the minus sign of a number.
    NumSign,
    /// Behind a zero that begins a number.
    NumZero,
    /// In the digits before the point.
    NumInt,
    /// Behind the point.
    NumDot,
    /// In the digits behind the point.
    NumFrac,
    /// Behind `e` or `E`.
    NumExp,
    /// Behind the sign of the exponent.
    NumExpSign,
    /// In the digits of the exponent.
    NumExpDigits,
    /// In `null`, behind `n`, `nu`, `nul`.
    Null1,
    Null2,
    Null3,
    /// In `true`, behind `t`, `tr`, `tru`.
    True1,
    True2,
    True3,
    /// In `false`, behind `f`, `fa`, `fal`, `fals`.
    False1,
    False2,
    False3,
    False4,
    /// The parser has stopped; nothing that follows is read.
    Halted,
}

/// An array or object that is open.
pub struct Level {
    /// It is an object.
    pub object: bool,
    /// The bytes of its key whose value is being read; zero between values
    /// and for an array.
    pub key: nat,
}

/// What the scan knows after some characters of a text.
pub struct Scan {
    pub phase: Phase,
    /// The parser would not return.
    pub refused: bool,
    /// The arrays and objects that are open, the outermost first.
    pub levels: Seq<Level>,
    /// The bytes of the keys of the open objects together.
    pub total: nat,
    /// The string that is read is a key.
    pub in_key: bool,
    /// The bytes of the key so far, counted no further than one beyond
    /// `MAX_KEYS`.
    pub bytes: nat,
    /// The number that the digits behind `\u` spell so far.
    pub unit: nat,
    /// How many of these digits are to come.
    pub hex_left: nat,
    /// They are the second half of a pair.
    pub low: bool,
    /// The number is behind a minus sign.
    pub negative: bool,
    /// The whole number, or the exponent, that the digits spell so far.
    pub number: nat,
}

/// Whether `c` is white space between the parts of a document.
pub open spec fn is_blank(c: char) -> bool {
    c == ' ' || c == '\n' || c == '\t' || c == '\r'
}

/// Whether `c` is a decimal digit.
pub open spec fn is_digit(c: char) -> bool {
    '0' <= c && c <= '9'
}

/// The number that the decimal digit `c` stands for.
pub open spec fn digit_value(c: char) -> nat {
    (c as u32 - 48) as nat
}

/// Whether `c` is a hexadecimal digit.
pub open spec fn is_hex(c: char) -> bool {
    is_digit(c) || ('a' <= c && c <= 'f') || ('A' <= c && c <= 'F')
}

/// The number that the hexadecimal digit `c` stands for.
pub open spec fn hex_value(c: char) -> nat {
    if is_digit(c) {
        (c as u32 - 48) as nat
    } else if 'a' <= c && c <= 'f' {
        (c as u32 - 87) as nat
    } else {
        (c as u32 - 55) as nat
    }
}

/// How many bytes the character with the number `v` takes.
pub open spec fn utf8_len(v: nat) -> nat {
    if v < 0x80 {
        1
    } else if v < 0x800 {
        2
    } else if v < 0x10000 {
        3
    } else {
        4
    }
}

/// Whether `c` ends an escape of one character.
pub open spec fn is_escape(c: char) -> bool {
    c == '"' || c == '\\' || c == '/' || c == 'b' || c == 'f' || c == 'n' || c == 'r' || c == 't'
}

/// What the scan knows before the first character.
pub open spec fn scan_start() -> Scan {
    Scan {
        phase: Phase::Start,
        refused: false,
        levels: Seq::empty(),
        total: 0,
        in_key: false,
        bytes: 0,
        unit: 0,
        hex_left: 0,
        low: false,
        negative: false,
        number: 0,
    }
}

/// The parser stops with an error.
pub open spec fn halt(s: Scan) -> Scan {
    Scan { phase: Phase::Halted, ..s }
}

/// The parser would not return.
pub open spec fn refuse(s: Scan) -> Scan {
    Scan { phase: Phase::Halted, refused: true, ..s }
}

/// The scan in another phase.
pub open spec fn turn(s: Scan, phase: Phase) -> Scan {
    Scan { phase, ..s }
}

/// A string begins, as a key or as a value.
pub open spec fn begin_string(s: Scan, in_key: bool) -> Scan {
    Scan { phase: Phase::Str, in_key, bytes: 0, ..s }
}

/// The string has `n` bytes more.
pub open spec fn add_bytes(s: Scan, n: nat) -> Scan {
    Scan {
        phase: Phase::Str,
        bytes: if s.bytes + n > MAX_KEYS {
            (MAX_KEYS + 1) as nat
        } else {
            s.bytes + n
        },
        ..s
    }
}

/// A value begins with `c`. An array or object that would be open inside
/// `MAX_DEPTH` others is held against the text.
pub open spec fn begin_value(s: Scan, c: char) -> Scan {
    if c == '"' {
        begin_string(s, false)
    } else if c == '[' || c == '{' {
        if s.levels.len() >= MAX_DEPTH {
            refuse(s)
        } else {
            Scan {
                phase: if c == '[' {
                    Phase::ArrayFirst
                } else {
                    Phase::ObjectFirst
                },
                levels: s.levels.push(Level { object: c == '{', key: 0 }),
                ..s
            }
        }
    } else if c == '-' {
        Scan { phase: Phase::NumSign, negative: true, number: 0, ..s }
    } else if c == '0' {
        Scan { phase: Phase::NumZero, negative: false, number: 0, ..s }
    } else if is_digit(c) {
        Scan { phase: Phase::NumInt, negative: false, number: digit_value(c), ..s }
    } else if c == 'n' {
        turn(s, Phase::Null1)
    } else if c == 't' {
        turn(s, Phase::True1)
    } else if c == 'f' {
        turn(s, Phase::False1)
    } else {
        halt(s)
    }
}

/// What is left of `total` without `key`.
pub open spec fn less(total: nat, key: nat) -> nat {
    if total >= key {
        (total - key) as nat
    } else {
        0
    }
}

/// The innermost array or object is closed.
pub open spec fn close(s: Scan) -> Scan {
    if s.levels.len() == 0 {
        halt(s)
    } else {
        Scan {
            phase: Phase::After,
            total: less(s.total, s.levels.last().key),
            levels: s.levels.drop_last(),
            ..s
        }
    }
}

/// The key of the innermost object, if it has one, is given up.
pub open spec fn drop_key(s: Scan) -> Scan {
    if s.levels.len() == 0 {
        s
    } else {
        Scan {
            total: less(s.total, s.levels.last().key),
            levels: s.levels.update(s.levels.len() - 1, Level { object: s.levels.last().object, key: 0 }),
            ..s
        }
    }
}

/// The colon behind a key: the key is kept for as long as its value is
/// read. Keys of more than `MAX_KEYS` bytes together are held against the
/// text.
pub open spec fn keep_key(s: Scan) -> Scan {
    if s.levels.len() == 0 {
        halt(s)
    } else if s.total + s.bytes > MAX_KEYS {
        refuse(s)
    } else {
        Scan {
            phase: Phase::ObjectValue,
            total: s.total + s.bytes,
            levels: s.levels.update(s.levels.len() - 1, Level { object: true, key: s.bytes }),
            ..s
        }
    }
}

/// The character `c` behind a value: nothing but white space behind the
/// value of the document; a comma or the closing bracket in an array; a
/// comma or the closing brace in an object.
pub open spec fn after_value(s: Scan, c: char) -> Scan {
    if is_blank(c) {
        turn(s, Phase::After)
    } else if s.levels.len() == 0 {
        halt(s)
    } else if s.levels.last().object {
        if c == ',' {
            turn(drop_key(s), Phase::ObjectNext)
        } else if c == '}' {
            close(s)
        } else {
            halt(s)
        }
    } else {
        if c == ',' {
            turn(s, Phase::ArrayNext)
        } else if c == ']' {
            close(s)
        } else {
            halt(s)
        }
    }
}

/// The character `c` behind the digits of a whole number: a point, an
/// exponent, or the end of the number, which is an error where the number
/// is too small.
pub open spec fn after_integer(s: Scan, c: char) -> Scan {
    if c == '.' {
        turn(s, Phase::NumDot)
    } else if c == 'e' || c == 'E' {
        turn(s, Phase::NumExp)
    } else if s.negative && s.number > MAX_NEGATIVE {
        halt(s)
    } else {
        after_value(s, c)
    }
}

/// The four digits behind `\u` are read. A second half without a first, a
/// first without a second, is an error.
pub open spec fn end_unit(s: Scan) -> Scan {
    let second = 0xDC00 <= s.unit && s.unit <= 0xDFFF;
    if s.low {
        if second {
            add_bytes(s, 4)
        } else {
            halt(s)
        }
    } else if second {
        halt(s)
    } else if 0xD800 <= s.unit && s.unit <= 0xDBFF {
        turn(s, Phase::StrLowSlash)
    } else {
        add_bytes(s, utf8_len(s.unit))
    }
}

/// One more letter of `null`, `true` or `false`.
pub open spec fn letter(s: Scan, c: char, expected: char, next: Phase) -> Scan {
    if c == expected {
        turn(s, next)
    } else {
        halt(s)
    }
}

/// The scan after the character `c`.
pub open spec fn scan_step(s: Scan, c: char) -> Scan {
    match s.phase {
        Phase::Halted => s,
        Phase::Start | Phase::ArrayNext | Phase::ObjectValue => if is_blank(c) {
            s
        } else {
            begin_value(s, c)
        },
        Phase::ArrayFirst => if is_blank(c) {
            s
        } else if c == ']' {
            close(s)
        } else {
            begin_value(s, c)
        },
        Phase::ObjectFirst => if is_blank(c) {
            s
        } else if c == '}' {
            close(s)
        } else if c == '"' {
            begin_string(s, true)
        } else {
            halt(s)
        },
        // After a comma, the closing brace of the document's own object is
        // an error; that of an inner object makes the parser lose its place.
        Phase::ObjectNext => if is_blank(c) {
            s
        } else if c == '}' {
            if s.levels.len() <= 1 {
                halt(s)
            } else {
                refuse(s)
            }
        } else if c == '"' {
            begin_string(s, true)
        } else {
            halt(s)
        },
        Phase::Colon => if is_blank(c) {
            s
        } else if c == ':' {
            keep_key(s)
        } else {
            halt(s)
        },
        Phase::After => after_value(s, c),
        Phase::Str => if c == '"' {
            turn(s, if s.in_key {
                Phase::Colon
            } else {
                Phase::After
            })
        } else if c == '\\' {
            turn(s, Phase::StrEscape)
        } else if c <= '\u{1f}' {
            halt(s)
        } else {
            add_bytes(s, utf8_len(c as nat))
        },
        Phase::StrEscape => if is_escape(c) {
            add_bytes(s, 1)
        } else if c == 'u' {
            Scan { phase: Phase::StrHex, unit: 0, hex_left: 4, low: false, ..s }
        } else {
            halt(s)
        },
        Phase::StrHex => if is_hex(c) {
            let read = Scan {
                unit: s.unit * 16 + hex_value(c),
                hex_left: if s.hex_left > 0 {
                    (s.hex_left - 1) as nat
                } else {
                    0
                },
                ..s
            };
            if read.hex_left > 0 {
                read
            } else {
                end_unit(read)
            }
        } else {
            halt(s)
        },
        Phase::StrLowSlash => letter(s, c, '\\', Phase::StrLowU),
        Phase::StrLowU => if c == 'u' {
            Scan { phase: Phase::StrHex, unit: 0, hex_left: 4, low: true, ..s }
        } else {
            halt(s)
        },
        Phase::NumSign => if c == '0' {
            turn(s, Phase::NumZero)
        } else if is_digit(c) {
            Scan { phase: Phase::NumInt, number: digit_value(c), ..s }
        } else {
            halt(s)
        },
        Phase::NumZero => if is_digit(c) {
            halt(s)
        } else {
            after_integer(s, c)
        },
        Phase::NumInt => if is_digit(c) {
            if s.number * 10 + digit_value(c) > MAX_NATURAL {
                halt(s)
            } else {
                Scan { number: s.number * 10 + digit_value(c), ..s }
            }
        } else {
            after_integer(s, c)
        },
        Phase::NumDot => if is_digit(c) {
            turn(s, Phase::NumFrac)
        } else {
            halt(s)
        },
        Phase::NumFrac => if is_digit(c) {
            s
        } else if c == 'e' || c == 'E' {
            turn(s, Phase::NumExp)
        } else {
            after_value(s, c)
        },
        Phase::NumExp => if c == '+' || c == '-' {
            turn(s, Phase::NumExpSign)
        } else if is_digit(c) {
            Scan { phase: Phase::NumExpDigits, number: digit_value(c), ..s }
        } else {
            halt(s)
        },
        Phase::NumExpSign => if is_digit(c) {
            Scan { phase: Phase::NumExpDigits, number: digit_value(c), ..s }
        } else {
            halt(s)
        },
        // An exponent beyond `MAX_EXPONENT` is held against the text.
        Phase::NumExpDigits => if is_digit(c) {
            if s.number * 10 + digit_value(c) > MAX_EXPONENT {
                refuse(s)
            } else {
                Scan { number: s.number * 10 + digit_value(c), ..s }
            }
        } else {
            after_value(s, c)
        },
        Phase::Null1 => letter(s, c, 'u', Phase::Null2),
        Phase::Null2 => letter(s, c, 'l', Phase::Null3),
        Phase::Null3 => letter(s, c, 'l', Phase::After),
        Phase::True1 => letter(s, c, 'r', Phase::True2),
        Phase::True2 => letter(s, c, 'u', Phase::True3),
        Phase::True3 => letter(s, c, 'e', Phase::After),
        Phase::False1 => letter(s, c, 'a', Phase::False2),
        Phase::False2 => letter(s, c, 'l', Phase::False3),
        Phase::False3 => letter(s, c, 's', Phase::False4),
        Phase::False4 => letter(s, c, 'e', Phase::After),
    }
}

/// What the scan knows after all of `text`.
pub open spec fn scan(text: Seq<char>) -> Scan
    decreases text.len(),
{
    if text.len() == 0 {
        scan_start()
    } else {
        scan_step(scan(text.drop_last()), text.last())
    }
}

/// Whether `text` may be handed to the parser: it has at most `MAX_TEXT`
/// characters and the scan does not refuse it.
pub open spec fn parse_admits(text: Seq<char>) -> bool {
    text.len() <= MAX_TEXT && !scan(text).refused
}

/// The scan of a text with one more character is one step on from the scan
/// of the text.
pub proof fn lemma_scan_push(text: Seq<char>, c: char)
    ensures
        scan(text.push(c)) == scan_step(scan(text), c),
{
    assert(text.push(c).drop_last() =~= text);
}

/// Once the scan has stopped, nothing that follows changes what it knows.
pub proof fn lemma_scan_stays_halted(text: Seq<char>, i: int)
    requires
        0 <= i <= text.len(),
        scan(text.take(i)).phase == Phase::Halted,
    ensures
        scan(text) == scan(text.take(i)),
    decreases text.len() - i,
{
    if i < text.len() {
        assert(text.take(i + 1) =~= text.take(i).push(text[i]));
        lemma_scan_push(text.take(i), text[i]);
        lemma_scan_stays_halted(text, i + 1);
    } else {
        assert(text.take(i) =~= text);
    }
}

/// An array or object that is open.
struct Open {
    object: bool,
    key: u64,
}

impl View for Open {
    type V = Level;

    closed spec fn view(&self) -> Level {
        Level { object: self.object, key: self.key as nat }
    }
}

impl DeepView for Open {
    type V = Level;

    closed spec fn deep_view(&self) -> Level {
        self@
    }
}

/// The state of a scan.
struct Scanner {
    phase: Phase,
    refused: bool,
    levels: Vec<Open>,
    total: u64,
    in_key: bool,
    bytes: u64,
    unit: u64,
    hex_left: u64,
    low: bool,
    negative: bool,
    number: u64,
}

impl View for Scanner {
    type V = Scan;

    closed spec fn view(&self) -> Scan {
        Scan {
            phase: self.phase,
            refused: self.refused,
            levels: self.levels.deep_view(),
            total: self.total as nat,
            in_key: self.in_key,
            bytes: self.bytes as nat,
            unit: self.unit as nat,
            hex_left: self.hex_left as nat,
            low: self.low,
            negative: self.negative,
            number: self.number as nat,
        }
    }
}

impl Scanner {
    /// The counters that every phase has are within their limits.
    closed spec fn counted(&self) -> bool {
        &&& self.levels.len() <= MAX_DEPTH
        &&& self.total <= MAX_KEYS
        &&& self.bytes <= MAX_KEYS + 1
    }

    /// All counters are within their limits.
    closed spec fn bounded(&self) -> bool {
        &&& self.counted()
        &&& self.phase == Phase::StrHex ==> {
            &&& 1 <= self.hex_left <= 4
            &&& self.hex_left == 4 ==> self.unit == 0
            &&& self.hex_left == 3 ==> self.unit < 0x10
            &&& self.hex_left == 2 ==> self.unit < 0x100
            &&& self.hex_left == 1 ==> self.unit < 0x1000
        }
        &&& self.phase == Phase::NumExpDigits ==> self.number <= MAX_EXPONENT
    }

    fn start() -> (r: Scanner)
        ensures
            r@ == scan_start(),
            r.bounded(),
    {
        let r = Scanner {
            phase: Phase::Start,
            refused: false,
            levels: Vec::new(),
            total: 0,
            in_key: false,
            bytes: 0,
            unit: 0,
            hex_left: 0,
            low: false,
            negative: false,
            number: 0,
        };
        assert(r.levels.deep_view() =~= Seq::empty());
        r
    }

    fn halt(&mut self)
        requires
            old(self).counted(),
        ensures
            final(self)@ == halt(old(self)@),
            final(self).bounded(),
    {
        self.phase = Phase::Halted;
    }

    fn refuse(&mut self)
        requires
            old(self).counted(),
        ensures
            final(self)@ == refuse(old(self)@),
            final(self).bounded(),
    {
        self.phase = Phase::Halted;
        self.refused = true;
    }

    fn turn(&mut self, phase: Phase)
        requires
            old(self).counted(),
            phase != Phase::StrHex,
            phase != Phase::NumExpDigits,
        ensures
            final(self)@ == turn(old(self)@, phase),
            final(self).bounded(),
    {
        self.phase = phase;
    }

    fn begin_string(&mut self, in_key: bool)
        requires
            old(self).counted(),
        ensures
            final(self)@ == begin_string(old(self)@, in_key),
            final(self).bounded(),
    {
        self.phase = Phase::Str;
        self.in_key = in_key;
        self.bytes = 0;
    }

    fn add_bytes(&mut self, n: u64)
        requires
            old(self).counted(),
            n <= 4,
        ensures
            final(self)@ == add_bytes(old(self)@, n as nat),
            final(self).bounded(),
    {
        self.phase = Phase::Str;
        if self.bytes + n > MAX_KEYS {
            self.bytes = MAX_KEYS + 1;
        } else {
            self.bytes = self.bytes + n;
        }
    }

    fn begin_number(&mut self, phase: Phase, negative: bool, number: u64)
        requires
            old(self).counted(),
            phase != Phase::StrHex,
            phase == Phase::NumExpDigits ==> number <= MAX_EXPONENT,
        ensures
            final(self)@ == (Scan { phase, negative, number: number as nat, ..old(self)@ }),
            final(self).bounded(),
    {
        self.phase = phase;
        self.negative = negative;
        self.number = number;
    }

    fn begin_value(&mut self, c: char)
        requires
            old(self).bounded(),
        ensures
            final(self)@ == begin_value(old(self)@, c),
            final(self).bounded(),
    {
        if c == '"' {
            self.begin_string(false);
        } else if c == '[' || c == '{' {
            if self.levels.len() >= 64 {
                self.refuse();
            } else {
                let ghost before = self.levels.deep_view();
                self.phase = if c == '[' {
                    Phase::ArrayFirst
                } else {
                    Phase::ObjectFirst
                };
                self.levels.push(Open { object: c == '{', key: 0 });
                assert(self.levels.deep_view() =~= before.push(Level { object: c == '{', key: 0 }));
            }
        } else if c == '-' {
            self.begin_number(Phase::NumSign, true, 0);
        } else if c == '0' {
            self.begin_number(Phase::NumZero, false, 0);
        } else if '0' <= c && c <= '9' {
            self.begin_number(Phase::NumInt, false, (c as u32 - 48) as u64);
        } else if c == 'n' {
            self.turn(Phase::Null1);
        } else if c == 't' {
            self.turn(Phase::True1);
        } else if c == 'f' {
            self.turn(Phase::False1);
        } else {
            self.halt();
        }
    }

    fn close(&mut self)
        requires
            old(self).bounded(),
        ensures
            final(self)@ == close(old(self)@),
            final(self).bounded(),
    {
        let ghost before = self.levels.deep_view();
        match self.levels.pop() {
            None => {
                assert(self.levels.deep_view() =~= before);
                self.halt();
            },
            Some(open) => {
                assert(before.last() == open@);
                assert(self.levels.deep_view() =~= before.drop_last());
                self.phase = Phase::After;
                self.total = if self.total >= open.key {
                    self.total - open.key
                } else {
                    0
                };
            },
        }
    }

    fn drop_key(&mut self)
        requires
            old(self).bounded(),
        ensures
            final(self)@ == drop_key(old(self)@),
            final(self).bounded(),
    {
        let n: usize = self.levels.len();
        if n > 0 {
            let ghost before = self.levels.deep_view();
            let key: u64 = self.levels[n - 1].key;
            let object: bool = self.levels[n - 1].object;
            assert(before.last() == self.levels[n - 1]@);
            self.levels.set(n - 1, Open { object, key: 0 });
            assert(self.levels.deep_view() =~= before.update(n - 1, Level { object, key: 0 }));
            self.total = if self.total >= key {
                self.total - key
            } else {
                0
            };
        }
    }

    fn keep_key(&mut self)
        requires
            old(self).bounded(),
        ensures
            final(self)@ == keep_key(old(self)@),
            final(self).bounded(),
    {
        let n: usize = self.levels.len();
        if n == 0 {
            self.halt();
        } else if self.total + self.bytes > MAX_KEYS {
            self.refuse();
        } else {
            let ghost before = self.levels.deep_view();
            self.levels.set(n - 1, Open { object: true, key: self.bytes });
            assert(self.levels.deep_view() =~= before.update(
                n - 1,
                Level { object: true, key: self.bytes as nat },
            ));
            self.phase = Phase::ObjectValue;
            self.total = self.total + self.bytes;
        }
    }

    fn after_value(&mut self, c: char)
        requires
            old(self).bounded(),
        ensures
            final(self)@ == after_value(old(self)@, c),
            final(self).bounded(),
    {
        let n: usize = self.levels.len();
        if c == ' ' || c == '\n' || c == '\t' || c == '\r' {
            self.turn(Phase::After);
        } else if n == 0 {
            self.halt();
        } else {
            assert(self.levels.deep_view().last() == self.levels[n - 1]@);
            if self.levels[n - 1].object {
                if c == ',' {
                    self.drop_key();
                    self.turn(Phase::ObjectNext);
                } else if c == '}' {
                    self.close();
                } else {
                    self.halt();
                }
            } else {
                if c == ',' {
                    self.turn(Phase::ArrayNext);
                } else if c == ']' {
                    self.close();
                } else {
                    self.halt();
                }
            }
        }
    }

    fn after_integer(&mut self, c: char)
        requires
            old(self).bounded(),
        ensures
            final(self)@ == after_integer(old(self)@, c),
            final(self).bounded(),
    {
        if c == '.' {
            self.turn(Phase::NumDot);
        } else if c == 'e' || c == 'E' {
            self.turn(Phase::NumExp);
        } else if self.negative && self.number > MAX_NEGATIVE {
            self.halt();
        } else {
            self.after_value(c);
        }
    }

    fn end_unit(&mut self)
        requires
            old(self).counted(),
            old(self).unit <= 0xFFFF,
        ensures
            final(self)@ == end_unit(old(self)@),
            final(self).bounded(),
    {
        let second: bool = 0xDC00 <= self.unit && self.unit <= 0xDFFF;
        if self.low {
            if second {
                self.add_bytes(4);
            } else {
                self.halt();
            }
        } else if second {
            self.halt();
        } else if 0xD800 <= self.unit && self.unit <= 0xDBFF {
            self.turn(Phase::StrLowSlash);
        } else {
            let n: u64 = Self::utf8_len(self.unit);
            self.add_bytes(n);
        }
    }

    fn utf8_len(v: u64) -> (n: u64)
        ensures
            n == utf8_len(v as nat),
            1 <= n <= 4,
    {
        if v < 0x80 {
            1
        } else if v < 0x800 {
            2
        } else if v < 0x10000 {
            3
        } else {
            4
        }
    }

    fn letter(&mut self, c: char, expected: char, next: Phase)
        requires
            old(self).bounded(),
            next != Phase::StrHex,
            next != Phase::NumExpDigits,
        ensures
            final(self)@ == letter(old(self)@, c, expected, next),
            final(self).bounded(),
    {
        if c == expected {
            self.turn(next);
        } else {
            self.halt();
        }
    }

    fn begin_hex(&mut self, low: bool)
        requires
            old(self).counted(),
        ensures
            final(self)@ == (Scan { phase: Phase::StrHex, unit: 0, hex_left: 4, low, ..old(self)@ }),
            final(self).bounded(),
    {
        self.phase = Phase::StrHex;
        self.unit = 0;
        self.hex_left = 4;
        self.low = low;
    }

    fn hex(&mut self, c: char)
        requires
            old(self).bounded(),
            old(self).phase == Phase::StrHex,
        ensures
            final(self)@ == scan_step(old(self)@, c),
            final(self).bounded(),
    {
        let digit: bool = '0' <= c && c <= '9';
        if digit || ('a' <= c && c <= 'f') || ('A' <= c && c <= 'F') {
            let value: u64 = if digit {
                (c as u32 - 48) as u64
            } else if 'a' <= c && c <= 'f' {
                (c as u32 - 87) as u64
            } else {
                (c as u32 - 55) as u64
            };
            self.unit = self.unit * 16 + value;
            self.hex_left = self.hex_left - 1;
            if self.hex_left == 0 {
                self.end_unit();
            }
        } else {
            self.halt();
        }
    }

    fn digits(&mut self, c: char, limit: u64)
        requires
            old(self).bounded(),
            old(self).phase == Phase::NumInt && limit == MAX_NATURAL || old(self).phase
                == Phase::NumExpDigits && limit == MAX_EXPONENT,
        ensures
            final(self)@ == scan_step(old(self)@, c),
            final(self).bounded(),
    {
        if '0' <= c && c <= '9' {
            let next: u128 = self.number as u128 * 10 + (c as u32 - 48) as u128;
            if next > limit as u128 {
                if self.phase == Phase::NumInt {
                    self.halt();
                } else {
                    self.refuse();
                }
            } else {
                self.number = next as u64;
            }
        } else if self.phase == Phase::NumInt {
            self.after_integer(c);
        } else {
            self.after_value(c);
        }
    }

    fn step(&mut self, c: char)
        requires
            old(self).bounded(),
        ensures
            final(self)@ == scan_step(old(self)@, c),
            final(self).bounded(),
    {
        let blank: bool = c == ' ' || c == '\n' || c == '\t' || c == '\r';
        let digit: bool = '0' <= c && c <= '9';
        match self.phase {
            Phase::Halted => {},
            Phase::Start | Phase::ArrayNext | Phase::ObjectValue => {
                if !blank {
                    self.begin_value(c);
                }
            },
            Phase::ArrayFirst => {
                if blank {
                } else if c == ']' {
                    self.close();
                } else {
                    self.begin_value(c);
                }
            },
            Phase::ObjectFirst => {
                if blank {
                } else if c == '}' {
                    self.close();
                } else if c == '"' {
                    self.begin_string(true);
                } else {
                    self.halt();
                }
            },
            Phase::ObjectNext => {
                if blank {
                } else if c == '}' {
                    if self.levels.len() <= 1 {
                        self.halt();
                    } else {
                        self.refuse();
                    }
                } else if c == '"' {
                    self.begin_string(true);
                } else {
                    self.halt();
                }
            },
            Phase::Colon => {
                if blank {
                } else if c == ':' {
                    self.keep_key();
                } else {
                    self.halt();
                }
            },
            Phase::After => self.after_value(c),
            Phase::Str => {
                if c == '"' {
                    if self.in_key {
                        self.turn(Phase::Colon);
                    } else {
                        self.turn(Phase::After);
                    }
                } else if c == '\\' {
                    self.turn(Phase::StrEscape);
                } else if c <= '\u{1f}' {
                    self.halt();
                } else {
                    let n: u64 = Self::utf8_len(c as u64);
                    self.add_bytes(n);
                }
            },
            Phase::StrEscape => {
                if c == '"' || c == '\\' || c == '/' || c == 'b' || c == 'f' || c == 'n' || c
                    == 'r' || c == 't' {
                    self.add_bytes(1);
                } else if c == 'u' {
                    self.begin_hex(false);
                } else {
                    self.halt();
                }
            },
            Phase::StrHex => self.hex(c),
            Phase::StrLowSlash => self.letter(c, '\\', Phase::StrLowU),
            Phase::StrLowU => {
                if c == 'u' {
                    self.begin_hex(true);
                } else {
                    self.halt();
                }
            },
            Phase::NumSign => {
                if c == '0' {
                    self.turn(Phase::NumZero);
                } else if digit {
                    let negative: bool = self.negative;
                    self.begin_number(Phase::NumInt, negative, (c as u32 - 48) as u64);
                } else {
                    self.halt();
                }
            },
            Phase::NumZero => {
                if digit {
                    self.halt();
                } else {
                    self.after_integer(c);
                }
            },
            Phase::NumInt => self.digits(c, MAX_NATURAL),
            Phase::NumDot => {
                if digit {
                    self.turn(Phase::NumFrac);
                } else {
                    self.halt();
                }
            },
            Phase::NumFrac => {
                if digit {
                } else if c == 'e' || c == 'E' {
                    self.turn(Phase::NumExp);
                } else {
                    self.after_value(c);
                }
            },
            Phase::NumExp => {
                if c == '+' || c == '-' {
                    self.turn(Phase::NumExpSign);
                } else if digit {
                    let negative: bool = self.negative;
                    self.begin_number(Phase::NumExpDigits, negative, (c as u32 - 48) as u64);
                } else {
                    self.halt();
                }
            },
            Phase::NumExpSign => {
                if digit {
                    let negative: bool = self.negative;
                    self.begin_number(Phase::NumExpDigits, negative, (c as u32 - 48) as u64);
                } else {
                    self.halt();
                }
            },
            Phase::NumExpDigits => self.digits(c, MAX_EXPONENT),
            Phase::Null1 => self.letter(c, 'u', Phase::Null2),
            Phase::Null2 => self.letter(c, 'l', Phase::Null3),
            Phase::Null3 => self.letter(c, 'l', Phase::After),
            Phase::True1 => self.letter(c, 'r', Phase::True2),
            Phase::True2 => self.letter(c, 'u', Phase::True3),
            Phase::True3 => self.letter(c, 'e', Phase::After),
            Phase::False1 => self.letter(c, 'a', Phase::False2),
            Phase::False2 => self.letter(c, 'l', Phase::False3),
            Phase::False3 => self.letter(c, 's', Phase::False4),
            Phase::False4 => self.letter(c, 'e', Phase::After),
        }
    }
}

/// Whether `text` may be handed to the parser.
pub fn admits(text: &str) -> (r: bool)
    ensures
        r == parse_admits(text@),
{
    let n: usize = text.unicode_len();
    if n as u64 > MAX_TEXT {
        return false;
    }
    let mut state = Scanner::start();
    assert(text@.take(0) =~= Seq::empty());
    for c in it: text.chars()
        invariant
            it.seq() == text@,
            text@.len() <= MAX_TEXT,
            state@ == scan(text@.take(it.index() as int)),
            state.phase != Phase::Halted,
            state.bounded(),
    {
        let ghost i = it.index() as int;
        proof {
            assert(text@.take(i + 1) =~= text@.take(i).push(c));
            lemma_scan_push(text@.take(i), c);
        }
        state.step(c);
        if state.phase == Phase::Halted {
            proof {
                lemma_scan_stays_halted(text@, i + 1);
            }
            return !state.refused;
        }
    }
    assert(text@.take(text@.len() as int) =~= text@);
    !state.refused
}

} // verus!
