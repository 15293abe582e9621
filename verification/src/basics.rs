//! Small exercises on functions, ownership, slices, structs, enums and
//! modules.

use crate::text::{push_str, string_of};
use vstd::string::StringSliceAdditionalSpecFns;
use vstd::prelude::*;

verus! {

/// `x + 1`.
pub fn plus_one(x: i32) -> (r: i32)
    requires
        x < i32::MAX,
    ensures
        r == x + 1,
{
    x + 1
}

/// Sum of a sequence of numbers.
pub open spec fn seq_sum(s: Seq<i32>) -> int
    decreases s.len(),
{
    if s.len() == 0 {
        0
    } else {
        seq_sum(s.drop_last()) + s.last()
    }
}

/// Every partial sum of `s` fits in an `i32` (summing never overflows).
pub open spec fn sums_fit(s: Seq<i32>) -> bool {
    forall|k: int| 0 <= k <= s.len() ==> i32::MIN <= #[trigger] seq_sum(s.take(k)) <= i32::MAX
}

/// Length and sum of a slice.
pub fn analyze_array(arr: &[i32]) -> (r: (usize, i32))
    requires
        sums_fit(arr@),
    ensures
        r.0 == arr@.len(),
        r.1 == seq_sum(arr@),
{
    let mut sum: i32 = 0;
    let mut i: usize = 0;
    while i < arr.len()
        invariant
            i <= arr@.len(),
            sums_fit(arr@),
            sum == seq_sum(arr@.take(i as int)),
        decreases arr@.len() - i,
    {
        proof {
            assert(arr@.take(i + 1).drop_last() =~= arr@.take(i as int));
            assert(i32::MIN <= seq_sum(arr@.take(i + 1)) <= i32::MAX);
        }
        sum = sum + arr[i];
        i = i + 1;
    }
    proof {
        assert(arr@.take(i as int) =~= arr@);
    }
    (i, sum)
}

/// Length of a string in bytes (UTF-8).
pub fn calculate_length(s: &String) -> (r: usize)
    ensures
        r == vstd::utf8::encode_utf8(s@).len() as usize,
{
    s.as_str().len()
}

/// Appends ", world".
pub fn change(some_string: &mut String)
    ensures
        final(some_string)@ == old(some_string)@ + ", world"@,
{
    push_str(some_string, ", world");
}

/// A new string "hello".
pub fn gives_ownership() -> (r: String)
    ensures
        r@ == "hello"@,
{
    string_of("hello")
}

/// Hands the string back.
pub fn takes_and_gives_back(a_string: String) -> (r: String)
    ensures
        r == a_string,
{
    a_string
}

/// Index of the first space in `s` from `i` on; its length when none.
pub open spec fn first_space_from(s: Seq<char>, i: int) -> int
    decreases s.len() - i,
{
    if i < 0 || i >= s.len() {
        s.len() as int
    } else if s[i] == ' ' {
        i
    } else {
        first_space_from(s, i + 1)
    }
}

/// The first word of `s`: everything before its first space (all of it
/// when there is none).
pub fn first_word(s: &str) -> (r: &str)
    ensures
        r@ == s@.take(first_space_from(s@, 0)),
{
    let n = s.unicode_len();
    let mut i: usize = 0;
    while i < n && s.get_char(i) != ' '
        invariant
            i <= n,
            n == s@.len(),
            first_space_from(s@, 0) == first_space_from(s@, i as int),
        decreases n - i,
    {
        i = i + 1;
    }
    proof {
        assert(s@.subrange(0, i as int) =~= s@.take(i as int));
    }
    s.substring_char(0, i)
}

/// A rectangle.
#[derive(Debug)]
pub struct Rectangle {
    pub width: u32,
    pub height: u32,
}

impl Rectangle {
    /// Width times height.
    pub fn area(&self) -> (r: u32)
        requires
            self.width * self.height <= u32::MAX,
        ensures
            r == self.width * self.height,
    {
        self.width * self.height
    }

    /// Whether both sides are positive.
    pub fn has_area(&self) -> (r: bool)
        ensures
            r == (self.width > 0 && self.height > 0),
    {
        self.width > 0 && self.height > 0
    }

    /// Doubles the width.
    pub fn double_width(&mut self)
        requires
            old(self).width * 2 <= u32::MAX,
        ensures
            final(self).width == old(self).width * 2,
            final(self).height == old(self).height,
    {
        self.width = self.width * 2;
    }

    /// A rectangle of the given sides.
    pub fn new(width: u32, height: u32) -> (r: Self)
        ensures
            r.width == width,
            r.height == height,
    {
        Rectangle { width, height }
    }
}

/// A square.
pub struct Square {
    pub side: u32,
}

impl Square {
    /// Side squared.
    pub fn area(&self) -> (r: u32)
        requires
            self.side * self.side <= u32::MAX,
        ensures
            r == self.side * self.side,
    {
        self.side * self.side
    }

    /// A square of the given side.
    pub fn new(side: u32) -> (r: Self)
        ensures
            r.side == side,
    {
        Square { side }
    }
}

/// A US coin.
#[derive(Debug, Clone, Copy, PartialEq, Eq, Structural)]
pub enum Coin {
    Penny,
    Nickel,
    Dime,
    Quarter,
}

/// Value of a coin in cents.
pub fn value_in_cents(coin: Coin) -> (r: u8)
    ensures
        r == match coin {
            Coin::Penny => 1u8,
            Coin::Nickel => 5u8,
            Coin::Dime => 10u8,
            Coin::Quarter => 25u8,
        },
{
    match coin {
        Coin::Penny => 1,
        Coin::Nickel => 5,
        Coin::Dime => 10,
        Coin::Quarter => 25,
    }
}

/// A state of the United States, as printed on a state quarter.
#[derive(Debug, Clone, Copy, PartialEq, Eq, Structural)]
pub enum UsState {
    Alabama,
    Alaska,
}

/// A quarter: a regular one or a state quarter.
#[derive(Debug, Clone, Copy, PartialEq, Eq, Structural)]
pub enum Quarter {
    Regular,
    State(UsState),
}

/// Value of a quarter in cents: 25, whatever its design (the state of a
/// state quarter is for the caller to print).
pub fn quarter_value_in_cents(quarter: &Quarter) -> (r: u8)
    ensures
        r == 25,
{
    match quarter {
        Quarter::Regular => 25,
        Quarter::State(_) => 25,
    }
}

/// A cell of a spreadsheet row: an integer, a floating-point number (held
/// as its IEEE-754 bit pattern) or a text.
#[derive(Debug, Clone, PartialEq)]
pub enum SpreadsheetCell {
    Int(i32),
    Float(u64),
    Text(String),
}

/// The example row: `Int(42)`, `Float(3.14)` and `Text("hello")`.
pub fn make_row() -> (r: Vec<SpreadsheetCell>)
    ensures
        r@.len() == 3,
        r@[0] == SpreadsheetCell::Int(42),
        r@[1] == SpreadsheetCell::Float(0x40091EB851EB851Fu64),
        r@[2] is Text && r@[2]->Text_0@ == "hello"@,
{
    let mut row: Vec<SpreadsheetCell> = Vec::new();
    row.push(SpreadsheetCell::Int(42));
    // 3.14 as an f64.
    row.push(SpreadsheetCell::Float(0x40091EB851EB851Fu64));
    row.push(SpreadsheetCell::Text(String::from_str("hello")));
    row
}

/// The number of text cells of `row`.
pub open spec fn text_cells(row: Seq<SpreadsheetCell>) -> nat
    decreases row.len(),
{
    if row.len() == 0 {
        0
    } else {
        text_cells(row.drop_last()) + if row.last() is Text {
            1nat
        } else {
            0nat
        }
    }
}

/// Counts the text cells of `row`.
pub fn count_text_cells(row: &[SpreadsheetCell]) -> (r: usize)
    ensures
        r == text_cells(row@),
{
    let mut n: usize = 0;
    let mut i: usize = 0;
    while i < row.len()
        invariant
            i <= row@.len(),
            n == text_cells(row@.take(i as int)),
            n <= i,
        decreases row@.len() - i,
    {
        proof {
            assert(row@.take(i as int + 1).drop_last() =~= row@.take(i as int));
        }
        match &row[i] {
            SpreadsheetCell::Text(_) => {
                n = n + 1;
            },
            _ => {},
        }
        i = i + 1;
    }
    proof {
        assert(row@.take(row@.len() as int) =~= row@);
    }
    n
}

/// Puts a party on the waiting list (nothing is kept).
pub fn add_to_waitlist() {
}

/// A visit to the restaurant: the party is put on the waiting list.
pub fn eat_at_restaurant() {
    add_to_waitlist();
}

} // verus!
