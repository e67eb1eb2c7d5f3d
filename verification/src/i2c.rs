//! Bringing the board up: the steps that reset the motor and servo controller and open
//! the bus to it.
//!
//! The steps are data, and so is what became of them. They come as a [`Plan`], which
//! hands the hardware layer one step at a time and hands out the next one only if that
//! one succeeded: the first failure ends the boot with `HardwareInitFailure`, and no
//! step after it is carried out.
//!
//! Once the bus is open, a scan of it lists the devices that answer. [`scan_i2c`] reads
//! the addresses off the table that the scan prints:
//!
//! ```text
//!      0  1  2  3  4  5  6  7  8  9  a  b  c  d  e  f
//! 00:                         -- -- -- -- -- -- -- --
//! 10: -- -- -- -- 14 -- -- -- -- -- -- -- -- -- -- --
//! ```

use vstd::prelude::*;
use crate::error::ControlError;
use crate::plan::{
    all_succeed, fails_first_at, lemma_plan_stops_at_first_failure, lemma_plan_succeeds,
    lemma_run_keeps_plan, Plan, PlanAction, PlanState,
};
use crate::pwm::{I2C_BUS, SLAVE_ADDR};

verus! {

/// The pin that resets the controller.
pub const MCU_RESET_PIN: u8 = 5;

/// How long the reset pin is held at each level, in milliseconds.
pub const RESET_HOLD_MS: u32 = 1;

/// How long to wait after opening the bus before talking on it, in milliseconds. Without
/// the wait, the first transfers fail.
pub const BUS_SETTLE_MS: u32 = 1000;

/// The byte that wakes the controller, sent first on the opened bus.
pub const WAKE_BYTE: u8 = 0x2C;

/// One step of bringing the board up.
#[derive(Clone, Copy, Debug, PartialEq, Eq, Structural)]
pub enum BootStep {
    /// Drive the output pin `pin` high or low.
    SetPin { pin: u8, high: bool },
    /// Wait for `millis` milliseconds.
    Sleep { millis: u32 },
    /// Open the I2C bus number `bus`.
    OpenBus { bus: u8 },
    /// Address the device at `addr` on the opened bus.
    SetSlaveAddress { addr: u16 },
    /// Send one byte to the addressed device.
    SendByte { byte: u8 },
}

/// The steps that reset the controller: its reset pin low, then high, held for a
/// millisecond each.
pub open spec fn reset_steps() -> Seq<BootStep> {
    seq![
        BootStep::SetPin { pin: MCU_RESET_PIN, high: false },
        BootStep::Sleep { millis: RESET_HOLD_MS },
        BootStep::SetPin { pin: MCU_RESET_PIN, high: true },
        BootStep::Sleep { millis: RESET_HOLD_MS },
    ]
}

/// The steps that open the bus to the controller: open bus 1, wait a second, address the
/// controller, and send it the wake byte and two zero bytes.
pub open spec fn bus_steps() -> Seq<BootStep> {
    seq![
        BootStep::OpenBus { bus: I2C_BUS },
        BootStep::Sleep { millis: BUS_SETTLE_MS },
        BootStep::SetSlaveAddress { addr: SLAVE_ADDR },
        BootStep::SendByte { byte: WAKE_BYTE },
        BootStep::SendByte { byte: 0 },
        BootStep::SendByte { byte: 0 },
    ]
}

/// The steps that reset the controller and then open the bus to it.
pub open spec fn boot_steps() -> Seq<BootStep> {
    reset_steps() + bus_steps()
}

/// A plan of boot steps that has not begun. A step that fails is a
/// `HardwareInitFailure`.
pub open spec fn boot_start(steps: Seq<BootStep>) -> PlanState<BootStep> {
    PlanState::start(steps, ControlError::HardwareInitFailure)
}

/// The steps that reset the controller.
fn reset_plan() -> (r: Vec<BootStep>)
    ensures
        r@ == reset_steps(),
{
    vec![
        BootStep::SetPin { pin: MCU_RESET_PIN, high: false },
        BootStep::Sleep { millis: RESET_HOLD_MS },
        BootStep::SetPin { pin: MCU_RESET_PIN, high: true },
        BootStep::Sleep { millis: RESET_HOLD_MS },
    ]
}

/// The steps that open the bus to the controller.
fn bus_plan() -> (r: Vec<BootStep>)
    ensures
        r@ == bus_steps(),
{
    vec![
        BootStep::OpenBus { bus: I2C_BUS },
        BootStep::Sleep { millis: BUS_SETTLE_MS },
        BootStep::SetSlaveAddress { addr: SLAVE_ADDR },
        BootStep::SendByte { byte: WAKE_BYTE },
        BootStep::SendByte { byte: 0 },
        BootStep::SendByte { byte: 0 },
    ]
}

/// Begins the reset of the controller.
pub fn reset_mcu() -> (r: Plan<BootStep>)
    ensures
        r@ == boot_start(reset_steps()),
{
    Plan::new(reset_plan(), ControlError::HardwareInitFailure)
}

/// Begins the opening of the bus to the controller.
pub fn init_i2c() -> (r: Plan<BootStep>)
    ensures
        r@ == boot_start(bus_steps()),
{
    Plan::new(bus_plan(), ControlError::HardwareInitFailure)
}

/// Begins bringing the board up: the reset of the controller, then the opening of the bus
/// to it.
pub fn boot() -> (r: Plan<BootStep>)
    ensures
        r@ == boot_start(boot_steps()),
{
    let mut steps: Vec<BootStep> = reset_plan();
    let mut bus: Vec<BootStep> = bus_plan();
    steps.append(&mut bus);
    Plan::new(steps, ControlError::HardwareInitFailure)
}

/// Bringing the board up ends with `Ok` exactly if every step of the reset and every step
/// of the opening of the bus succeeds.
pub proof fn lemma_boot_is_ready_iff_all_steps_succeed(outcomes: Seq<bool>)
    requires
        outcomes.len() >= boot_steps().len(),
    ensures
        boot_start(boot_steps()).run(outcomes).result() == Some(Ok::<(), ControlError>(()))
            <==> all_succeed(outcomes, boot_steps().len() as int),
        boot_start(boot_steps()).run(outcomes).result() is Some,
{
    let len = boot_steps().len() as int;
    if all_succeed(outcomes, len) {
        lemma_plan_succeeds(boot_steps(), ControlError::HardwareInitFailure, outcomes);
    } else {
        let k = first_failure(outcomes, len, 0);
        lemma_first_failure(outcomes, len, 0);
        lemma_plan_stops_at_first_failure(
            boot_steps(),
            ControlError::HardwareInitFailure,
            outcomes,
            k,
        );
    }
}

/// The place of the first failure among the outcomes from `from` up to `len`, or `len`
/// if there is none.
spec fn first_failure(outcomes: Seq<bool>, len: int, from: int) -> int
    decreases len - from,
{
    if from >= len || from >= outcomes.len() {
        len
    } else if !outcomes[from] {
        from
    } else {
        first_failure(outcomes, len, from + 1)
    }
}

proof fn lemma_first_failure(outcomes: Seq<bool>, len: int, from: int)
    requires
        0 <= from,
        len <= outcomes.len(),
        forall|i: int| 0 <= i < from ==> #[trigger] outcomes[i],
        !all_succeed(outcomes, len),
    ensures
        fails_first_at(outcomes, len, first_failure(outcomes, len, from)),
    decreases len - from,
{
    if from < len && outcomes[from] {
        lemma_first_failure(outcomes, len, from + 1);
    }
}

/// If a step of the reset fails, bringing the board up ends with `HardwareInitFailure`,
/// and no step that opens the bus is ever handed out.
pub proof fn lemma_failed_reset_opens_no_bus(outcomes: Seq<bool>, k: int, n: int)
    requires
        fails_first_at(outcomes, reset_steps().len() as int, k),
        0 <= n <= outcomes.len(),
    ensures
        boot_start(boot_steps()).run(outcomes).result() == Some(
            Err::<(), ControlError>(ControlError::HardwareInitFailure),
        ),
        boot_start(boot_steps()).run(outcomes.take(n)).done < reset_steps().len(),
        boot_start(boot_steps()).run(outcomes.take(n)).action() matches PlanAction::Perform(step)
            ==> reset_steps().contains(step),
{
    lemma_plan_stops_at_first_failure(boot_steps(), ControlError::HardwareInitFailure, outcomes, k);
    let at = boot_start(boot_steps()).run(outcomes.take(n));
    assert(at.done <= k);
    lemma_run_keeps_plan(boot_start(boot_steps()), outcomes.take(n));
    if at.action() is Perform {
        assert(boot_steps()[at.done] == reset_steps()[at.done]);
    }
}

/// White space, as the Unicode property `White_Space` has it.
pub open spec fn is_space(c: char) -> bool {
    let u = c as u32;
    ||| 0x09 <= u <= 0x0D
    ||| u == 0x20
    ||| u == 0x85
    ||| u == 0xA0
    ||| u == 0x1680
    ||| 0x2000 <= u <= 0x200A
    ||| u == 0x2028
    ||| u == 0x2029
    ||| u == 0x202F
    ||| u == 0x205F
    ||| u == 0x3000
}

/// The value of a hexadecimal digit, in either case.
pub open spec fn hex_digit(c: char) -> Option<int> {
    if '0' <= c <= '9' {
        Some(c as int - '0' as int)
    } else if 'a' <= c <= 'f' {
        Some(c as int - 'a' as int + 10)
    } else if 'A' <= c <= 'F' {
        Some(c as int - 'A' as int + 10)
    } else {
        None
    }
}

/// The number that `digits` spell in base 16, if they are all hexadecimal digits.
pub open spec fn hex_number(digits: Seq<char>) -> Option<int>
    decreases digits.len(),
{
    if digits.len() == 0 {
        Some(0)
    } else {
        match (hex_number(digits.drop_last()), hex_digit(digits.last())) {
            (Some(high), Some(low)) => Some(high * 16 + low),
            _ => None,
        }
    }
}

/// The address that a token of the table spells: a hexadecimal number of at least one
/// digit and at most `ffff`, which a plus sign may precede. Anything else, such as the
/// `--` of an address that did not answer, spells none.
pub open spec fn address_of(token: Seq<char>) -> Option<u16> {
    if token.len() > 0 && token[0] == '+' {
        number_address(token.drop_first())
    } else {
        number_address(token)
    }
}

/// The address that `digits` spell: a hexadecimal number of at least one digit and at
/// most `ffff`.
pub open spec fn number_address(digits: Seq<char>) -> Option<u16> {
    if digits.len() == 0 {
        None
    } else {
        match hex_number(digits) {
            Some(v) => if v <= u16::MAX {
                Some(v as u16)
            } else {
                None
            },
            None => None,
        }
    }
}

/// The place of the first `c` in `s` from `from` up to, but without, `to`; `to` if there
/// is none.
pub open spec fn find(s: Seq<char>, c: char, from: int, to: int) -> int
    decreases to - from,
{
    if from >= to {
        to
    } else if s[from] == c {
        from
    } else {
        find(s, c, from + 1, to)
    }
}

/// What is found lies where it was looked for.
pub proof fn lemma_find_bounds(s: Seq<char>, c: char, from: int, to: int)
    requires
        from <= to,
    ensures
        from <= find(s, c, from, to) <= to,
    decreases to - from,
{
    if from < to && s[from] != c {
        lemma_find_bounds(s, c, from + 1, to);
    }
}

/// The place of the first white space in `s` from `from` up to, but without, `to`; `to`
/// if there is none.
pub open spec fn token_end(s: Seq<char>, from: int, to: int) -> int
    decreases to - from,
{
    if from >= to {
        to
    } else if is_space(s[from]) {
        from
    } else {
        token_end(s, from + 1, to)
    }
}

/// A token ends where it was looked for, and after its first character.
pub proof fn lemma_token_end_bounds(s: Seq<char>, from: int, to: int)
    requires
        from <= to,
    ensures
        from <= token_end(s, from, to) <= to,
        from < to && !is_space(s[from]) ==> from < token_end(s, from, to),
    decreases to - from,
{
    if from < to && !is_space(s[from]) {
        lemma_token_end_bounds(s, from + 1, to);
    }
}

/// The addresses that the tokens of `s` from `from` up to, but without, `to` spell, in
/// order. A token is a longest run of characters without white space.
pub open spec fn token_addresses(s: Seq<char>, from: int, to: int) -> Seq<u16>
    decreases to - from,
{
    if from >= to {
        Seq::empty()
    } else if is_space(s[from]) {
        token_addresses(s, from + 1, to)
    } else {
        proof {
            lemma_token_end_bounds(s, from, to);
        }
        let end = token_end(s, from, to);
        let rest = token_addresses(s, end, to);
        match address_of(s.subrange(from, end)) {
            Some(a) => seq![a] + rest,
            None => rest,
        }
    }
}

/// The addresses of the line of `s` that runs from `from` up to, but without, `to`: those
/// of the tokens between its first colon and its second, or its end if it has only one.
/// A line without a colon has none.
pub open spec fn line_addresses(s: Seq<char>, from: int, to: int) -> Seq<u16> {
    let first = find(s, ':', from, to);
    if first >= to {
        Seq::empty()
    } else {
        token_addresses(s, first + 1, find(s, ':', first + 1, to))
    }
}

/// The addresses of the lines of `s` from `from` on. A line ends at a line feed or at the
/// end of `s`.
pub open spec fn lines_addresses(s: Seq<char>, from: int) -> Seq<u16>
    decreases s.len() + 1 - from,
{
    if from >= s.len() {
        Seq::empty()
    } else {
        proof {
            lemma_find_bounds(s, '\n', from, s.len() as int);
        }
        let end = find(s, '\n', from, s.len() as int);
        line_addresses(s, from, end) + lines_addresses(s, end + 1)
    }
}

/// The addresses that the table of a bus scan lists: those of all its lines but the
/// first, which holds the column heads.
pub open spec fn scanned_addresses(s: Seq<char>) -> Seq<u16> {
    lines_addresses(s, find(s, '\n', 0, s.len() as int) + 1)
}

/// Whether `c` is white space.
fn is_whitespace(c: char) -> (r: bool)
    ensures
        r == is_space(c),
{
    let u: u32 = c as u32;
    (0x09 <= u && u <= 0x0D) || u == 0x20 || u == 0x85 || u == 0xA0 || u == 0x1680 || (0x2000 <= u
        && u <= 0x200A) || u == 0x2028 || u == 0x2029 || u == 0x202F || u == 0x205F || u == 0x3000
}

/// The value of `c` as a hexadecimal digit.
fn digit_value(c: char) -> (r: Option<u32>)
    ensures
        r is Some <==> hex_digit(c) is Some,
        r matches Some(v) ==> hex_digit(c) == Some(v as int) && v < 16,
{
    if '0' <= c && c <= '9' {
        Some(c as u32 - '0' as u32)
    } else if 'a' <= c && c <= 'f' {
        Some(c as u32 - 'a' as u32 + 10)
    } else if 'A' <= c && c <= 'F' {
        Some(c as u32 - 'A' as u32 + 10)
    } else {
        None
    }
}

/// A number stays out of range, or stops being one, whatever is written after it.
proof fn lemma_hex_number_grows(digits: Seq<char>, k: int)
    requires
        0 <= k <= digits.len(),
    ensures
        hex_number(digits.take(k)) is None ==> hex_number(digits) is None,
        hex_number(digits) matches Some(v) ==> hex_number(digits.take(k)) matches Some(w) && 0 <= w
            <= v,
    decreases digits.len() - k,
{
    if k == digits.len() {
        assert(digits.take(k) =~= digits);
        lemma_hex_number_is_natural(digits);
    } else {
        lemma_hex_number_grows(digits, k + 1);
        assert(digits.take(k + 1).drop_last() =~= digits.take(k));
        lemma_hex_number_is_natural(digits.take(k));
    }
}

proof fn lemma_hex_number_is_natural(digits: Seq<char>)
    ensures
        hex_number(digits) matches Some(v) ==> v >= 0,
    decreases digits.len(),
{
    if digits.len() > 0 {
        lemma_hex_number_is_natural(digits.drop_last());
    }
}

/// The place of the first `c` in `s` from `from` up to `to`.
fn find_char(s: &Vec<char>, c: char, from: usize, to: usize) -> (r: usize)
    requires
        from <= to <= s.len(),
    ensures
        r == find(s@, c, from as int, to as int),
        from <= r <= to,
{
    let mut i: usize = from;
    while i < to && s[i] != c
        invariant
            from <= i <= to <= s.len(),
            find(s@, c, from as int, to as int) == find(s@, c, i as int, to as int),
        decreases to - i,
    {
        i += 1;
    }
    i
}

/// The place of the first white space in `s` from `from` up to `to`.
fn find_space(s: &Vec<char>, from: usize, to: usize) -> (r: usize)
    requires
        from <= to <= s.len(),
    ensures
        r == token_end(s@, from as int, to as int),
        from <= r <= to,
{
    let mut i: usize = from;
    while i < to && !is_whitespace(s[i])
        invariant
            from <= i <= to <= s.len(),
            token_end(s@, from as int, to as int) == token_end(s@, i as int, to as int),
        decreases to - i,
    {
        i += 1;
    }
    i
}

/// The address that the token of `s` from `from` up to `to` spells.
fn parse_address(s: &Vec<char>, from: usize, to: usize) -> (r: Option<u16>)
    requires
        from <= to <= s.len(),
    ensures
        r == address_of(s@.subrange(from as int, to as int)),
{
    let ghost token = s@.subrange(from as int, to as int);
    let start: usize = if from < to && s[from] == '+' {
        from + 1
    } else {
        from
    };
    let ghost digits = s@.subrange(start as int, to as int);
    proof {
        if start > from {
            assert(token.drop_first() =~= digits);
        }
    }
    if start == to {
        return None;
    }
    let mut value: u32 = 0;
    let mut i: usize = start;
    proof {
        assert(digits.take(0) =~= Seq::<char>::empty());
    }
    while i < to
        invariant
            start <= i <= to <= s.len(),
            start < to,
            digits == s@.subrange(start as int, to as int),
            address_of(s@.subrange(from as int, to as int)) == number_address(digits),
            hex_number(digits.take(i - start)) == Some(value as int),
            value <= u16::MAX,
        decreases to - i,
    {
        proof {
            assert(digits.take(i - start + 1).drop_last() =~= digits.take(i - start));
            assert(digits.take(i - start + 1).last() == s@[i as int]);
            lemma_hex_number_grows(digits, i - start + 1);
        }
        let ghost longer = digits.take(i - start + 1);
        match digit_value(s[i]) {
            Some(d) => {
                assert(hex_number(longer) == Some(value * 16 + d));
                value = value * 16 + d;
                if value > 0xFFFF {
                    return None;
                }
            },
            None => {
                assert(hex_number(longer) is None);
                return None;
            },
        }
        i += 1;
    }
    proof {
        assert(digits.take(to - start) =~= digits);
    }
    Some(value as u16)
}

/// Appends the addresses that the tokens of `s` from `from` up to `to` spell.
fn push_token_addresses(s: &Vec<char>, from: usize, to: usize, addresses: &mut Vec<u16>)
    requires
        from <= to <= s.len(),
    ensures
        final(addresses)@ == old(addresses)@ + token_addresses(s@, from as int, to as int),
{
    let mut i: usize = from;
    while i < to
        invariant
            from <= i <= to <= s.len(),
            addresses@ + token_addresses(s@, i as int, to as int) == old(addresses)@
                + token_addresses(s@, from as int, to as int),
        decreases to - i,
    {
        if is_whitespace(s[i]) {
            i += 1;
        } else {
            let end: usize = find_space(s, i, to);
            proof {
                lemma_token_end_bounds(s@, i as int, to as int);
            }
            let ghost before = addresses@;
            let ghost rest = token_addresses(s@, end as int, to as int);
            if let Some(a) = parse_address(s, i, end) {
                addresses.push(a);
                proof {
                    assert(before.push(a) + rest =~= before + (seq![a] + rest));
                }
            }
            i = end;
        }
    }
}

/// The addresses that the table of a bus scan lists, in the order of the table.
///
/// The first line of `output` holds the column heads and is passed over. Of each line
/// after it, what stands between the first colon and the second, or the end of the line,
/// is taken apart at white space; each part that is a hexadecimal number of up to `ffff`
/// gives an address, and each other part, such as `--` or `UU`, is passed over.
pub fn scan_i2c(output: &str) -> (addresses: Vec<u16>)
    ensures
        addresses@ == scanned_addresses(output@),
{
    let mut s: Vec<char> = Vec::new();
    for c in it: output.chars()
        invariant
            s@ == it.seq().take(it.index() as int),
            it.seq() == output@,
    {
        s.push(c);
    }
    assert(s@ =~= output@);
    let mut addresses: Vec<u16> = Vec::new();
    let n: usize = s.len();
    let head_end: usize = find_char(&s, '\n', 0, n);
    if head_end == n {
        return addresses;
    }
    let mut from: usize = head_end + 1;
    while from < n
        invariant
            from <= n == s.len(),
            s@ == output@,
            addresses@ + lines_addresses(s@, from as int) == scanned_addresses(s@),
        decreases n - from,
    {
        let end: usize = find_char(&s, '\n', from, n);
        let first: usize = find_char(&s, ':', from, end);
        let ghost before = addresses@;
        if first < end {
            let second: usize = find_char(&s, ':', first + 1, end);
            push_token_addresses(&s, first + 1, second, &mut addresses);
        }
        proof {
            let here = line_addresses(s@, from as int, end as int);
            let rest = lines_addresses(s@, end + 1);
            assert(addresses@ == before + here);
            assert(before + here + rest =~= before + (here + rest));
        }
        if end == n {
            return addresses;
        }
        from = end + 1;
    }
    addresses
}

} // verus!
