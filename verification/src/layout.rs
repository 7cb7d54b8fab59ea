//! A peer desktop placed next to this one.
//!
//! Placing it and mapping points between the two is arithmetic on coordinates and
//! belongs to the program around the library; the library carries the result.

use vstd::prelude::*;

use crate::config::{EdgeLink, EdgeLinkModel};
use crate::geom::{Point, Rect, Side};
use crate::identity::DeviceId;

verus! {

/// A peer desktop placed in this machine's coordinate space.
#[derive(Debug, PartialEq)]
pub struct PlacedPeer {
    pub device_id: DeviceId,
    /// This machine's desktop rectangle, kept so the mapping is self contained.
    pub local: Rect,
    /// Bounding box of the peer's displays, in local desktop coordinates.
    pub bounds: Rect,
    /// Add this to a peer-local coordinate to obtain a local coordinate.
    pub offset: Point,
    pub link: EdgeLink,
}

#[verifier::ext_equal]
pub struct PlacedModel {
    pub device_id: Seq<char>,
    pub local: Rect,
    pub bounds: Rect,
    pub offset: Point,
    pub link: EdgeLinkModel,
}

impl DeepView for PlacedPeer {
    type V = PlacedModel;

    open spec fn deep_view(&self) -> PlacedModel {
        PlacedModel {
            device_id: self.device_id@,
            local: self.local,
            bounds: self.bounds,
            offset: self.offset,
            link: self.link.deep_view(),
        }
    }
}

impl Clone for PlacedPeer {
    fn clone(&self) -> (out: Self)
        ensures
            out == *self,
    {
        PlacedPeer {
            device_id: self.device_id.clone(),
            local: self.local,
            bounds: self.bounds,
            offset: self.offset,
            link: self.link.clone(),
        }
    }
}

/// The edges of the desktop that the cursor is at and moving out of.
#[derive(Clone, Copy, Debug, PartialEq, Eq, Structural)]
pub struct PushedEdges {
    pub left: bool,
    pub right: bool,
    pub top: bool,
    pub bottom: bool,
}

impl PushedEdges {
    /// Whether the cursor is pushed out of the given edge.
    pub open spec fn at(self, side: Side) -> bool {
        match side {
            Side::Left => self.left,
            Side::Right => self.right,
            Side::Top => self.top,
            Side::Bottom => self.bottom,
        }
    }

    /// Whether the cursor is pushed out of the given edge.
    pub fn is_pushed(&self, side: Side) -> (out: bool)
        ensures
            out == self.at(side),
    {
        match side {
            Side::Left => self.left,
            Side::Right => self.right,
            Side::Top => self.top,
            Side::Bottom => self.bottom,
        }
    }
}

} // verus!
