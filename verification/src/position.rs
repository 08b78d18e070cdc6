//! One player's reported location: a world (zone) name and three integer
//! block coordinates. A position is replaced whole on every report and never
//! merged, so the type is plain data with no internal invariant.

use vstd::prelude::*;
use crate::json::{json_field_str, json_field_i64, get_str, get_i64};
use crate::message::DecodeError;

verus! {

/// Mathematical image of a [`Position`]: the world name as a character
/// sequence and the coordinates as unbounded integers.
pub struct PositionView {
    pub world: Seq<char>,
    pub x: int,
    pub y: int,
    pub z: int,
}

/// A player's location for one update tick. Coordinates are whole blocks;
/// the world string tells zones apart (players in different worlds never
/// hear each other).
#[derive(Debug)]
pub struct Position {
    pub world: String,
    pub x: i32,
    pub y: i32,
    pub z: i32,
}

impl View for Position {
    type V = PositionView;

    open spec fn view(&self) -> PositionView {
        PositionView {
            world: self.world@,
            x: self.x as int,
            y: self.y as int,
            z: self.z as int,
        }
    }
}

/// What a JSON position object decodes to: present exactly when `world` is
/// a string and `x`, `y`, `z` are integers in coordinate range.
pub open spec fn spec_decode_position(v: serde_json::Value) -> Option<PositionView> {
    match (
        json_field_str(v, "world"@),
        json_field_i64(v, "x"@),
        json_field_i64(v, "y"@),
        json_field_i64(v, "z"@),
    ) {
        (Some(world), Some(x), Some(y), Some(z)) => {
            if i32::MIN <= x <= i32::MAX && i32::MIN <= y <= i32::MAX && i32::MIN <= z
                <= i32::MAX {
                Some(PositionView { world: world, x: x as int, y: y as int, z: z as int })
            } else {
                None
            }
        },
        _ => None,
    }
}

impl Position {
    /// The position assumed before any report has arrived: the default
    /// overworld name at the origin.
    pub fn default() -> (p: Position)
        ensures
            p@.world == "world"@,
            p@.x == 0 && p@.y == 0 && p@.z == 0,
    {
        Position { world: "world".to_owned(), x: 0, y: 0, z: 0 }
    }

    /// Decodes a JSON position object: fails exactly when `world` is not a
    /// string or a coordinate is not an integer in range.
    pub fn new(position_json_object: &serde_json::Value) -> (r: Result<Position, DecodeError>)
        ensures
            match spec_decode_position(*position_json_object) {
                Some(pv) => (r matches Ok(p) && p@ == pv),
                None => r == Err::<Position, DecodeError>(DecodeError::MissingField),
            },
    {
        let world = match get_str(position_json_object, "world") {
            Some(w) => w,
            None => {
                return Err(DecodeError::MissingField);
            },
        };
        let x = match get_i64(position_json_object, "x") {
            Some(x) => x,
            None => {
                return Err(DecodeError::MissingField);
            },
        };
        let y = match get_i64(position_json_object, "y") {
            Some(y) => y,
            None => {
                return Err(DecodeError::MissingField);
            },
        };
        let z = match get_i64(position_json_object, "z") {
            Some(z) => z,
            None => {
                return Err(DecodeError::MissingField);
            },
        };
        if x < i32::MIN as i64 || x > i32::MAX as i64 || y < i32::MIN as i64 || y > i32::MAX as i64
            || z < i32::MIN as i64 || z > i32::MAX as i64 {
            return Err(DecodeError::MissingField);
        }
        Ok(Position { world, x: x as i32, y: y as i32, z: z as i32 })
    }

    /// Replaces this position whole with the decode of a JSON position
    /// object; on a malformed object nothing changes and the error is
    /// returned.
    pub fn set(&mut self, position_json_object: &serde_json::Value) -> (r: Result<(), DecodeError>)
        ensures
            match spec_decode_position(*position_json_object) {
                Some(pv) => r is Ok && final(self)@ == pv,
                None => r == Err::<(), DecodeError>(DecodeError::MissingField) && *final(self)
                    == *old(self),
            },
    {
        match Position::new(position_json_object) {
            Ok(p) => {
                *self = p;
                Ok(())
            },
            Err(e) => Err(e),
        }
    }
}

/// Equality of two world names, decided character by character.
pub fn str_eq(a: &str, b: &str) -> (r: bool)
    ensures
        r == (a@ == b@),
{
    let a_len = a.unicode_len();
    let b_len = b.unicode_len();
    if a_len != b_len {
        return false;
    }
    let mut i: usize = 0;
    while i < a_len
        invariant
            a_len == a@.len(),
            b_len == b@.len(),
            a_len == b_len,
            i <= a_len,
            forall|k: int| 0 <= k < i ==> a@[k] == b@[k],
        decreases a_len - i,
    {
        if a.get_char(i) != b.get_char(i) {
            return false;
        }
        i += 1;
    }
    proof {
        assert(a@ =~= b@);
    }
    true
}

} // verus!
