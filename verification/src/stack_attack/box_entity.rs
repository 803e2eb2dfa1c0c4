use vstd::prelude::*;
use super::types::Point;
use crate::proto::stack_attack as proto;

verus! {

/// A box in the field; new boxes are falling.
#[derive(Debug, Clone, Copy)]
pub struct BoxEntity {
    pub id: u32,
    pub position: Point,
    pub pattern_id: u32,
    pub falling: bool,
}

impl BoxEntity {
    pub fn new(id: u32, position: Point, pattern_id: u32) -> (r: Self)
        ensures
            r.id == id,
            r.position == position,
            r.pattern_id == pattern_id,
            r.falling,
    {
        Self { id, position, pattern_id, falling: true }
    }

    pub fn to_proto(&self) -> (r: proto::Box)
        ensures
            r == (proto::Box {
                id: self.id,
                x: self.position.x,
                y: self.position.y,
                pattern_id: self.pattern_id,
                falling: self.falling,
            }),
    {
        proto::Box {
            id: self.id,
            x: self.position.x,
            y: self.position.y,
            pattern_id: self.pattern_id,
            falling: self.falling,
        }
    }
}

} // verus!
