use vstd::prelude::*;

use crate::primitives::interpolate::{blend, Interpolate};
use crate::primitives::size::Size;
use vstd::std_specs::convert::IntoSpec;
use vstd::std_specs::ops::{AddSpec, DivSpec, MulSpec, SubSpec};

verus! {

/// `a * b` clamped to the `u16` range.
pub open spec fn saturating_mul_u16(a: int, b: int) -> int {
    if a * b > u16::MAX { u16::MAX as int } else { a * b }
}

/// `a + b` clamped to the `u16` range.
pub open spec fn saturating_add_u16(a: int, b: int) -> int {
    if a + b > u16::MAX { u16::MAX as int } else { a + b }
}

/// `a - b` clamped at zero.
pub open spec fn saturating_sub_u16(a: int, b: int) -> int {
    if a - b < 0 { 0 } else { a - b }
}

fn mul_saturating(a: u16, b: u16) -> (r: u16)
    ensures
        r == saturating_mul_u16(a as int, b as int),
{
    let (wa, wb) = (a as u32, b as u32);
    assert(wa * wb <= 65535 * 65535) by (nonlinear_arith)
        requires wa <= 65535, wb <= 65535;
    let wide = wa * wb;
    if wide > u16::MAX as u32 {
        u16::MAX
    } else {
        wide as u16
    }
}

/// A size proposal along both axes.
#[derive(Debug, Clone, Copy, PartialEq, Eq, Structural)]
pub struct ProposedDimensions {
    pub width: ProposedDimension,
    pub height: ProposedDimension,
}

/// A size proposal along one axis.
#[derive(Debug, Clone, Copy, PartialEq, Eq, Structural, PartialOrd, Ord, Hash)]
pub enum ProposedDimension {
    /// An exactly sized offer
    Exact(u16),
    /// A request for the most compact size a view can manage
    Compact,
    /// An offer of infinite size
    Infinite,
}

/// The dimension of a single axis.
///
/// `u16::MAX` stands for infinity; the arithmetic on this type saturates, so
/// that overflowing operations cannot panic.
#[derive(Debug, Clone, Copy, PartialEq, Eq, Structural, PartialOrd, Ord)]
pub struct Dimension(pub u16);

/// A resolved size along both axes.
#[derive(Debug, Clone, Copy, PartialEq, Eq, Structural)]
pub struct Dimensions {
    pub width: Dimension,
    pub height: Dimension,
}

/// Whether `size` fits within `proposal` along one axis.
pub open spec fn fits_proposal(proposal: ProposedDimension, size: Dimension) -> bool {
    match proposal {
        ProposedDimension::Exact(d) => size.0 <= d,
        _ => true,
    }
}

/// The most flexible dimension that a proposal allows along one axis.
pub open spec fn most_flexible(proposal: ProposedDimension, minimum: u16, ideal: u16) -> Dimension {
    match proposal {
        ProposedDimension::Compact => Dimension(ideal),
        ProposedDimension::Exact(d) => Dimension(if d >= minimum { d } else { minimum }),
        ProposedDimension::Infinite => Dimension(u16::MAX),
    }
}

/// A dimension clipped to an exact proposal; other proposals leave it as it is.
pub open spec fn clipped_to_proposal(dimension: Dimension, proposal: ProposedDimension) -> Dimension {
    match proposal {
        ProposedDimension::Exact(d) => Dimension(if dimension.0 <= d { dimension.0 } else { d }),
        _ => dimension,
    }
}

impl ProposedDimensions {
    pub fn new<W: Into<ProposedDimension>, H: Into<ProposedDimension>>(width: W, height: H) -> (r: Self)
        ensures
            W::obeys_into_spec() ==> r.width == width.into_spec(),
            H::obeys_into_spec() ==> r.height == height.into_spec(),
    {
        Self { width: width.into(), height: height.into() }
    }

    /// A proposal with compact width and height
    pub fn compact() -> (r: Self)
        ensures
            r.width == ProposedDimension::Compact,
            r.height == ProposedDimension::Compact,
    {
        Self { width: ProposedDimension::Compact, height: ProposedDimension::Compact }
    }

    /// A proposal with infinite width and height
    pub fn infinite() -> (r: Self)
        ensures
            r.width == ProposedDimension::Infinite,
            r.height == ProposedDimension::Infinite,
    {
        Self { width: ProposedDimension::Infinite, height: ProposedDimension::Infinite }
    }

    /// Returns the most flexible dimension within the proposal.
    ///
    /// The ideal size is used when a compact size is proposed.
    pub fn resolve_most_flexible(self, minimum: Size, ideal: Size) -> (r: Dimensions)
        requires
            minimum.width <= u16::MAX,
            minimum.height <= u16::MAX,
            ideal.width <= u16::MAX,
            ideal.height <= u16::MAX,
        ensures
            r.width == most_flexible(self.width, minimum.width as u16, ideal.width as u16),
            r.height == most_flexible(self.height, minimum.height as u16, ideal.height as u16),
    {
        Dimensions {
            width: self.width.resolve_most_flexible(minimum.width as u16, ideal.width as u16),
            height: self.height.resolve_most_flexible(minimum.height as u16, ideal.height as u16),
        }
    }

    /// Determines if a given size fits within the proposal along the given axes.
    ///
    /// Compact and infinite proposals always return true for any size.
    pub fn contains(&self, size: Dimensions, horizontal: bool, vertical: bool) -> (r: bool)
        ensures
            r == ((!horizontal || fits_proposal(self.width, size.width)) && (!vertical
                || fits_proposal(self.height, size.height))),
    {
        (!horizontal || match self.width {
            ProposedDimension::Exact(d) => size.width.0 <= d,
            ProposedDimension::Compact | ProposedDimension::Infinite => true,
        }) && (!vertical || match self.height {
            ProposedDimension::Exact(d) => size.height.0 <= d,
            ProposedDimension::Compact | ProposedDimension::Infinite => true,
        })
    }
}

impl From<Size> for ProposedDimensions {
    fn from(size: Size) -> (r: Self) {
        Self {
            width: ProposedDimension::Exact(size.width as u16),
            height: ProposedDimension::Exact(size.height as u16),
        }
    }
}

impl vstd::std_specs::convert::FromSpecImpl<Size> for ProposedDimensions {
    open spec fn obeys_from_spec() -> bool {
        true
    }

    open spec fn from_spec(size: Size) -> Self {
        ProposedDimensions {
            width: ProposedDimension::Exact(size.width as u16),
            height: ProposedDimension::Exact(size.height as u16),
        }
    }
}

impl From<Dimensions> for ProposedDimensions {
    fn from(dimensions: Dimensions) -> (r: Self) {
        Self {
            width: ProposedDimension::Exact(dimensions.width.0),
            height: ProposedDimension::Exact(dimensions.height.0),
        }
    }
}

impl vstd::std_specs::convert::FromSpecImpl<Dimensions> for ProposedDimensions {
    open spec fn obeys_from_spec() -> bool {
        true
    }

    open spec fn from_spec(dimensions: Dimensions) -> Self {
        ProposedDimensions {
            width: ProposedDimension::Exact(dimensions.width.0),
            height: ProposedDimension::Exact(dimensions.height.0),
        }
    }
}

impl ProposedDimension {
    /// Returns the most flexible dimension within the proposal
    pub fn resolve_most_flexible(self, minimum: u16, ideal: u16) -> (r: Dimension)
        ensures
            r == most_flexible(self, minimum, ideal),
            self matches ProposedDimension::Exact(d) ==> r.0 >= d && r.0 >= minimum && (r.0 == d || r.0
                == minimum),
            self is Compact ==> r.0 == ideal,
            self is Infinite ==> r.0 == u16::MAX,
    {
        match self {
            Self::Compact => Dimension(ideal),
            Self::Exact(d) => Dimension(if d >= minimum { d } else { minimum }),
            Self::Infinite => Dimension::infinite(),
        }
    }
}

impl From<u16> for ProposedDimension {
    fn from(value: u16) -> (r: Self) {
        Self::Exact(value)
    }
}

impl vstd::std_specs::convert::FromSpecImpl<u16> for ProposedDimension {
    open spec fn obeys_from_spec() -> bool {
        true
    }

    open spec fn from_spec(value: u16) -> Self {
        ProposedDimension::Exact(value)
    }
}

impl core::ops::Add<u16> for ProposedDimension {
    type Output = Self;

    fn add(self, rhs: u16) -> (r: Self) {
        match self {
            Self::Compact => Self::Compact,
            Self::Exact(d) => Self::Exact(d + rhs),
            Self::Infinite => Self::Infinite,
        }
    }
}

impl vstd::std_specs::ops::AddSpecImpl<u16> for ProposedDimension {
    open spec fn obeys_add_spec() -> bool {
        true
    }

    open spec fn add_req(self, rhs: u16) -> bool {
        match self {
            ProposedDimension::Exact(d) => d + rhs <= u16::MAX,
            _ => true,
        }
    }

    open spec fn add_spec(self, rhs: u16) -> Self {
        match self {
            ProposedDimension::Exact(d) => ProposedDimension::Exact((d + rhs) as u16),
            other => other,
        }
    }
}

impl core::ops::Sub<u16> for ProposedDimension {
    type Output = Self;

    fn sub(self, rhs: u16) -> (r: Self) {
        match self {
            Self::Compact => Self::Compact,
            Self::Exact(d) => Self::Exact(d.saturating_sub(rhs)),
            Self::Infinite => Self::Infinite,
        }
    }
}

impl vstd::std_specs::ops::SubSpecImpl<u16> for ProposedDimension {
    open spec fn obeys_sub_spec() -> bool {
        true
    }

    open spec fn sub_req(self, rhs: u16) -> bool {
        true
    }

    open spec fn sub_spec(self, rhs: u16) -> Self {
        match self {
            ProposedDimension::Exact(d) => ProposedDimension::Exact(
                saturating_sub_u16(d as int, rhs as int) as u16,
            ),
            other => other,
        }
    }
}

impl core::ops::Mul<u16> for ProposedDimension {
    type Output = Self;

    fn mul(self, rhs: u16) -> (r: Self) {
        match self {
            Self::Compact => Self::Compact,
            Self::Exact(d) => Self::Exact(mul_saturating(d, rhs)),
            Self::Infinite => Self::Infinite,
        }
    }
}

impl vstd::std_specs::ops::MulSpecImpl<u16> for ProposedDimension {
    open spec fn obeys_mul_spec() -> bool {
        true
    }

    open spec fn mul_req(self, rhs: u16) -> bool {
        true
    }

    open spec fn mul_spec(self, rhs: u16) -> Self {
        match self {
            ProposedDimension::Exact(d) => ProposedDimension::Exact(
                saturating_mul_u16(d as int, rhs as int) as u16,
            ),
            other => other,
        }
    }
}

impl core::ops::Div<u16> for ProposedDimension {
    type Output = Self;

    fn div(self, rhs: u16) -> (r: Self) {
        match self {
            Self::Compact => Self::Compact,
            Self::Exact(d) => Self::Exact(d / rhs),
            Self::Infinite => Self::Infinite,
        }
    }
}

impl vstd::std_specs::ops::DivSpecImpl<u16> for ProposedDimension {
    open spec fn obeys_div_spec() -> bool {
        true
    }

    open spec fn div_req(self, rhs: u16) -> bool {
        match self {
            ProposedDimension::Exact(_) => rhs != 0,
            _ => true,
        }
    }

    open spec fn div_spec(self, rhs: u16) -> Self {
        match self {
            ProposedDimension::Exact(d) => ProposedDimension::Exact((d / rhs) as u16),
            other => other,
        }
    }
}

impl Dimension {
    pub fn new(value: u16) -> (r: Self)
        ensures
            r.0 == value,
    {
        Self(value)
    }

    pub fn infinite() -> (r: Self)
        ensures
            r.0 == u16::MAX,
    {
        Self(u16::MAX)
    }

    pub fn is_infinite(self) -> (r: bool)
        ensures
            r == (self.0 == u16::MAX),
    {
        self.0 == u16::MAX
    }
}

impl From<Dimension> for u16 {
    fn from(value: Dimension) -> (r: Self) {
        value.0
    }
}

impl vstd::std_specs::convert::FromSpecImpl<Dimension> for u16 {
    open spec fn obeys_from_spec() -> bool {
        true
    }

    open spec fn from_spec(value: Dimension) -> Self {
        value.0
    }
}

impl From<Dimension> for i16 {
    fn from(value: Dimension) -> (r: Self) {
        value.0 as i16
    }
}

impl vstd::std_specs::convert::FromSpecImpl<Dimension> for i16 {
    open spec fn obeys_from_spec() -> bool {
        true
    }

    open spec fn from_spec(value: Dimension) -> Self {
        value.0 as i16
    }
}

impl From<u16> for Dimension {
    fn from(value: u16) -> (r: Self) {
        Self(value)
    }
}

impl vstd::std_specs::convert::FromSpecImpl<u16> for Dimension {
    open spec fn obeys_from_spec() -> bool {
        true
    }

    open spec fn from_spec(value: u16) -> Self {
        Dimension(value)
    }
}

impl From<i16> for Dimension {
    fn from(value: i16) -> (r: Self) {
        Self(value as u16)
    }
}

impl vstd::std_specs::convert::FromSpecImpl<i16> for Dimension {
    open spec fn obeys_from_spec() -> bool {
        true
    }

    open spec fn from_spec(value: i16) -> Self {
        Dimension(value as u16)
    }
}

impl core::ops::Add for Dimension {
    type Output = Self;

    fn add(self, rhs: Self) -> (r: Self) {
        Self(self.0.saturating_add(rhs.0))
    }
}

impl vstd::std_specs::ops::AddSpecImpl for Dimension {
    open spec fn obeys_add_spec() -> bool {
        true
    }

    open spec fn add_req(self, rhs: Self) -> bool {
        true
    }

    open spec fn add_spec(self, rhs: Self) -> Self {
        Dimension(saturating_add_u16(self.0 as int, rhs.0 as int) as u16)
    }
}

impl core::ops::Sub for Dimension {
    type Output = Self;

    fn sub(self, rhs: Self) -> (r: Self) {
        Self(self.0.saturating_sub(rhs.0))
    }
}

impl vstd::std_specs::ops::SubSpecImpl for Dimension {
    open spec fn obeys_sub_spec() -> bool {
        true
    }

    open spec fn sub_req(self, rhs: Self) -> bool {
        true
    }

    open spec fn sub_spec(self, rhs: Self) -> Self {
        Dimension(saturating_sub_u16(self.0 as int, rhs.0 as int) as u16)
    }
}

impl core::ops::Mul for Dimension {
    type Output = Self;

    fn mul(self, rhs: Self) -> (r: Self) {
        Self(mul_saturating(self.0, rhs.0))
    }
}

impl vstd::std_specs::ops::MulSpecImpl for Dimension {
    open spec fn obeys_mul_spec() -> bool {
        true
    }

    open spec fn mul_req(self, rhs: Self) -> bool {
        true
    }

    open spec fn mul_spec(self, rhs: Self) -> Self {
        Dimension(saturating_mul_u16(self.0 as int, rhs.0 as int) as u16)
    }
}

impl core::ops::Div for Dimension {
    type Output = Self;

    fn div(self, rhs: Self) -> (r: Self) {
        Self(self.0 / rhs.0)
    }
}

impl vstd::std_specs::ops::DivSpecImpl for Dimension {
    open spec fn obeys_div_spec() -> bool {
        true
    }

    open spec fn div_req(self, rhs: Self) -> bool {
        rhs.0 != 0
    }

    open spec fn div_spec(self, rhs: Self) -> Self {
        Dimension((self.0 / rhs.0) as u16)
    }
}

impl core::ops::Add<u16> for Dimension {
    type Output = Self;

    fn add(self, rhs: u16) -> (r: Self) {
        Self(self.0.saturating_add(rhs))
    }
}

impl vstd::std_specs::ops::AddSpecImpl<u16> for Dimension {
    open spec fn obeys_add_spec() -> bool {
        true
    }

    open spec fn add_req(self, rhs: u16) -> bool {
        true
    }

    open spec fn add_spec(self, rhs: u16) -> Self {
        Dimension(saturating_add_u16(self.0 as int, rhs as int) as u16)
    }
}

impl core::ops::Sub<u16> for Dimension {
    type Output = Self;

    fn sub(self, rhs: u16) -> (r: Self) {
        Self(self.0.saturating_sub(rhs))
    }
}

impl vstd::std_specs::ops::SubSpecImpl<u16> for Dimension {
    open spec fn obeys_sub_spec() -> bool {
        true
    }

    open spec fn sub_req(self, rhs: u16) -> bool {
        true
    }

    open spec fn sub_spec(self, rhs: u16) -> Self {
        Dimension(saturating_sub_u16(self.0 as int, rhs as int) as u16)
    }
}

impl core::ops::Mul<u16> for Dimension {
    type Output = Self;

    fn mul(self, rhs: u16) -> (r: Self) {
        Self(mul_saturating(self.0, rhs))
    }
}

impl vstd::std_specs::ops::MulSpecImpl<u16> for Dimension {
    open spec fn obeys_mul_spec() -> bool {
        true
    }

    open spec fn mul_req(self, rhs: u16) -> bool {
        true
    }

    open spec fn mul_spec(self, rhs: u16) -> Self {
        Dimension(saturating_mul_u16(self.0 as int, rhs as int) as u16)
    }
}

impl core::ops::Div<u16> for Dimension {
    type Output = Self;

    fn div(self, rhs: u16) -> (r: Self) {
        Self(self.0 / rhs)
    }
}

impl vstd::std_specs::ops::DivSpecImpl<u16> for Dimension {
    open spec fn obeys_div_spec() -> bool {
        true
    }

    open spec fn div_req(self, rhs: u16) -> bool {
        rhs != 0
    }

    open spec fn div_spec(self, rhs: u16) -> Self {
        Dimension((self.0 / rhs) as u16)
    }
}

impl Dimensions {
    pub fn new(width: u16, height: u16) -> (r: Self)
        ensures
            r.width.0 == width,
            r.height.0 == height,
    {
        Self { width: Dimension(width), height: Dimension(height) }
    }

    pub fn zero() -> (r: Self)
        ensures
            r.width.0 == 0,
            r.height.0 == 0,
    {
        Self { width: Dimension(0), height: Dimension(0) }
    }

    pub fn infinite() -> (r: Self)
        ensures
            r.width.0 == u16::MAX,
            r.height.0 == u16::MAX,
    {
        Self { width: Dimension::infinite(), height: Dimension::infinite() }
    }

    /// The larger of the two sizes along each axis.
    pub fn union(self, other: Self) -> (r: Self)
        ensures
            r.width.0 == (if self.width.0 >= other.width.0 { self.width.0 } else { other.width.0 }),
            r.height.0 == (if self.height.0 >= other.height.0 {
                self.height.0
            } else {
                other.height.0
            }),
    {
        Self {
            width: if self.width.0 >= other.width.0 { self.width } else { other.width },
            height: if self.height.0 >= other.height.0 { self.height } else { other.height },
        }
    }

    /// The smaller of the two sizes along each axis.
    pub fn intersection(self, other: Self) -> (r: Self)
        ensures
            r.width.0 == (if self.width.0 <= other.width.0 { self.width.0 } else { other.width.0 }),
            r.height.0 == (if self.height.0 <= other.height.0 {
                self.height.0
            } else {
                other.height.0
            }),
    {
        Self {
            width: if self.width.0 <= other.width.0 { self.width } else { other.width },
            height: if self.height.0 <= other.height.0 { self.height } else { other.height },
        }
    }

    /// Clips each axis to the offer where the offer is exact.
    pub fn intersecting_proposal(self, offer: &ProposedDimensions) -> (r: Self)
        ensures
            r.width == clipped_to_proposal(self.width, offer.width),
            r.height == clipped_to_proposal(self.height, offer.height),
    {
        Self {
            width: match offer.width {
                ProposedDimension::Exact(d) => Dimension(
                    if self.width.0 <= d { self.width.0 } else { d },
                ),
                ProposedDimension::Infinite | ProposedDimension::Compact => self.width,
            },
            height: match offer.height {
                ProposedDimension::Exact(d) => Dimension(
                    if self.height.0 <= d { self.height.0 } else { d },
                ),
                ProposedDimension::Infinite | ProposedDimension::Compact => self.height,
            },
        }
    }

    /// The saturating product of width and height.
    pub fn area(self) -> (r: u16)
        ensures
            r == saturating_mul_u16(self.width.0 as int, self.height.0 as int),
    {
        (self.width * self.height).0
    }
}

impl core::ops::Add for Dimensions {
    type Output = Self;

    fn add(self, rhs: Self) -> (r: Self) {
        Self { width: self.width + rhs.width, height: self.height + rhs.height }
    }
}

impl vstd::std_specs::ops::AddSpecImpl for Dimensions {
    open spec fn obeys_add_spec() -> bool {
        true
    }

    open spec fn add_req(self, rhs: Self) -> bool {
        true
    }

    open spec fn add_spec(self, rhs: Self) -> Self {
        Dimensions {
            width: Dimension(saturating_add_u16(self.width.0 as int, rhs.width.0 as int) as u16),
            height: Dimension(saturating_add_u16(self.height.0 as int, rhs.height.0 as int) as u16),
        }
    }
}

impl From<Size> for Dimensions {
    fn from(value: Size) -> (r: Self) {
        Self { width: Dimension(value.width as u16), height: Dimension(value.height as u16) }
    }
}

impl vstd::std_specs::convert::FromSpecImpl<Size> for Dimensions {
    open spec fn obeys_from_spec() -> bool {
        true
    }

    open spec fn from_spec(value: Size) -> Self {
        Dimensions { width: Dimension(value.width as u16), height: Dimension(value.height as u16) }
    }
}

impl From<Dimensions> for Size {
    fn from(value: Dimensions) -> (r: Self) {
        Self { width: value.width.0 as u32, height: value.height.0 as u32 }
    }
}

impl vstd::std_specs::convert::FromSpecImpl<Dimensions> for Size {
    open spec fn obeys_from_spec() -> bool {
        true
    }

    open spec fn from_spec(value: Dimensions) -> Self {
        Size { width: value.width.0 as u32, height: value.height.0 as u32 }
    }
}

/// Whether every intermediate of the `u16` blend fits.
pub open spec fn blend_fits_u16(from: u16, to: u16, amount: u8) -> bool {
    amount * to + (255 - amount) * from <= u16::MAX
}

impl Interpolate for Dimension {
    open spec fn interpolate_ok(from: Self, to: Self, amount: u8) -> bool {
        blend_fits_u16(from.0, to.0, amount)
    }

    open spec fn interpolation(from: Self, to: Self, amount: u8) -> Self {
        Dimension(blend(from.0 as int, to.0 as int, amount as int) as u16)
    }

    fn interpolate(from: Self, to: Self, amount: u8) -> (r: Self) {
        let a = amount as u16;
        assert(a * to.0 <= a * to.0 + (255 - a) * from.0) by (nonlinear_arith)
            requires a <= 255;
        assert((255 - a) * from.0 <= a * to.0 + (255 - a) * from.0) by (nonlinear_arith)
            requires a <= 255;
        Self(((a * to.0) + ((255 - a) * from.0)) / 255)
    }
}

impl Interpolate for Dimensions {
    open spec fn interpolate_ok(from: Self, to: Self, amount: u8) -> bool {
        blend_fits_u16(from.width.0, to.width.0, amount) && blend_fits_u16(
            from.height.0,
            to.height.0,
            amount,
        )
    }

    open spec fn interpolation(from: Self, to: Self, amount: u8) -> Self {
        Dimensions {
            width: Dimension::interpolation(from.width, to.width, amount),
            height: Dimension::interpolation(from.height, to.height, amount),
        }
    }

    fn interpolate(from: Self, to: Self, amount: u8) -> (r: Self) {
        Self {
            width: Dimension::interpolate(from.width, to.width, amount),
            height: Dimension::interpolate(from.height, to.height, amount),
        }
    }
}


/// Interpolating dimensions gives the start at factor 0 and the end at
/// factor 255.
pub proof fn lemma_dimensions_interpolation_ends(from: Dimensions, to: Dimensions)
    ensures
        Dimensions::interpolation(from, to, 0) == from,
        Dimensions::interpolation(from, to, 255) == to,
{
    crate::primitives::interpolate::lemma_blend_ends(from.width.0 as int, to.width.0 as int, 0);
    crate::primitives::interpolate::lemma_blend_ends(from.height.0 as int, to.height.0 as int, 0);
}

/// Compact and infinite proposals fit any size along any axis; an exact
/// proposal fits the sizes up to its extent.
pub proof fn lemma_flexible_proposals_fit(proposal: ProposedDimensions, size: Dimensions, horizontal: bool, vertical: bool)
    ensures
        !(proposal.width is Exact) && !(proposal.height is Exact) ==> ((!horizontal || fits_proposal(
            proposal.width,
            size.width,
        )) && (!vertical || fits_proposal(proposal.height, size.height))),
        proposal.width matches ProposedDimension::Exact(d) ==> (fits_proposal(proposal.width, size.width)
            <==> size.width.0 <= d),
{
}

/// Resolving a proposal takes all the room it offers: an exact offer in
/// full, but never less than the minimum (so the larger of the two), a
/// compact offer the ideal size, and an infinite offer the largest
/// dimension.
pub proof fn lemma_most_flexible_takes_the_offer(proposal: ProposedDimension, minimum: u16, ideal: u16)
    ensures
        proposal matches ProposedDimension::Exact(d) ==> {
            let r = most_flexible(proposal, minimum, ideal).0;
            &&& r >= d
            &&& r >= minimum
            &&& r == d || r == minimum
        },
        proposal is Compact ==> most_flexible(proposal, minimum, ideal).0 == ideal,
        proposal is Infinite ==> most_flexible(proposal, minimum, ideal).0 == u16::MAX,
{
}

/// Two-axis proposals are resolved axis by axis, each taking all the room
/// its axis offers, never less than the minimum along it.
pub proof fn lemma_proposed_dimensions_take_the_offer(proposal: ProposedDimensions, minimum: Size, ideal: Size)
    requires
        minimum.width <= u16::MAX,
        minimum.height <= u16::MAX,
        ideal.width <= u16::MAX,
        ideal.height <= u16::MAX,
    ensures
        proposal.width matches ProposedDimension::Exact(d) ==> {
            let r = most_flexible(proposal.width, minimum.width as u16, ideal.width as u16).0;
            &&& r >= d
            &&& r >= minimum.width
            &&& r == d || r == minimum.width
        },
        proposal.height matches ProposedDimension::Exact(d) ==> {
            let r = most_flexible(proposal.height, minimum.height as u16, ideal.height as u16).0;
            &&& r >= d
            &&& r >= minimum.height
            &&& r == d || r == minimum.height
        },
        proposal.width is Compact ==> most_flexible(proposal.width, minimum.width as u16, ideal.width as u16).0
            == ideal.width,
        proposal.height is Compact ==> most_flexible(proposal.height, minimum.height as u16, ideal.height as u16).0
            == ideal.height,
{
    lemma_most_flexible_takes_the_offer(proposal.width, minimum.width as u16, ideal.width as u16);
    lemma_most_flexible_takes_the_offer(proposal.height, minimum.height as u16, ideal.height as u16);
}

/// Whether `r` is the sum of `a` and `b` capped at the largest dimension.
pub open spec fn is_capped_sum(r: int, a: int, b: int) -> bool {
    &&& r >= a
    &&& r >= b
    &&& r <= u16::MAX
    &&& a + b <= u16::MAX ==> r == a + b
    &&& a + b > u16::MAX ==> r == u16::MAX
}

/// Whether `r` is `a` less `b`, stopped at zero.
pub open spec fn is_floored_difference(r: int, a: int, b: int) -> bool {
    &&& 0 <= r <= a
    &&& a >= b ==> r + b == a
    &&& a < b ==> r == 0
}

/// Whether `r` is the product of `a` and `b` capped at the largest dimension.
pub open spec fn is_capped_product(r: int, a: int, b: int) -> bool {
    &&& 0 <= r <= u16::MAX
    &&& a * b <= u16::MAX ==> r == a * b
    &&& a * b > u16::MAX ==> r == u16::MAX
}

/// Whether `r` is the quotient of `a` by a nonzero `b`, rounded down.
pub open spec fn is_floored_quotient(r: int, a: int, b: int) -> bool {
    &&& r * b <= a
    &&& a < (r + 1) * b
}

/// Dimension arithmetic never overflows: sums and products stop at the
/// largest dimension, differences at zero, and quotients round down.
pub proof fn lemma_dimension_arithmetic_saturates(a: Dimension, b: Dimension, k: u16)
    ensures
        is_capped_sum(a.add_spec(b).0 as int, a.0 as int, b.0 as int),
        is_capped_sum(a.add_spec(k).0 as int, a.0 as int, k as int),
        is_floored_difference(a.sub_spec(b).0 as int, a.0 as int, b.0 as int),
        is_floored_difference(a.sub_spec(k).0 as int, a.0 as int, k as int),
        is_capped_product(a.mul_spec(b).0 as int, a.0 as int, b.0 as int),
        is_capped_product(a.mul_spec(k).0 as int, a.0 as int, k as int),
        b.0 != 0 ==> is_floored_quotient(a.div_spec(b).0 as int, a.0 as int, b.0 as int),
        k != 0 ==> is_floored_quotient(a.div_spec(k).0 as int, a.0 as int, k as int),
{
    let (x, y, z) = (a.0 as int, b.0 as int, k as int);
    if y != 0 {
        let q = x / y;
        assert(q * y <= x && x < (q + 1) * y) by (nonlinear_arith)
            requires y > 0, x >= 0, q == x / y;
    }
    if z != 0 {
        let q = x / z;
        assert(q * z <= x && x < (q + 1) * z) by (nonlinear_arith)
            requires z > 0, x >= 0, q == x / z;
    }
}

/// Sizes add axis by axis, each axis stopping at the largest dimension.
pub proof fn lemma_dimensions_add_by_axis(a: Dimensions, b: Dimensions)
    ensures
        is_capped_sum(a.add_spec(b).width.0 as int, a.width.0 as int, b.width.0 as int),
        is_capped_sum(a.add_spec(b).height.0 as int, a.height.0 as int, b.height.0 as int),
{
}

/// Arithmetic on a proposal changes only an exact offer: it grows by the
/// amount added, shrinks by the amount taken (stopping at zero), scales
/// with a cap at the largest dimension, and divides rounding down. Compact
/// and infinite proposals stay as they are.
pub proof fn lemma_proposal_arithmetic(p: ProposedDimension, k: u16)
    ensures
        p matches ProposedDimension::Exact(d) ==> {
            &&& (d + k <= u16::MAX ==> p.add_spec(k) == ProposedDimension::Exact((d + k) as u16))
            &&& p.sub_spec(k) matches ProposedDimension::Exact(r) && is_floored_difference(r as int, d as int, k as int)
            &&& p.mul_spec(k) matches ProposedDimension::Exact(r) && is_capped_product(r as int, d as int, k as int)
            &&& (k != 0 ==> (p.div_spec(k) matches ProposedDimension::Exact(r) && is_floored_quotient(r as int, d as int, k as int)))
        },
        !(p is Exact) ==> p.add_spec(k) == p && p.sub_spec(k) == p && p.mul_spec(k) == p && p.div_spec(k) == p,
{
    if let ProposedDimension::Exact(d) = p {
        if k != 0 {
            let (x, z) = (d as int, k as int);
            let q = x / z;
            assert(q * z <= x && x < (q + 1) * z) by (nonlinear_arith)
                requires z > 0, x >= 0, q == x / z;
        }
    }
}

/// Clipping a size to a proposal keeps it within an exact offer, never
/// grows it, and leaves a size that already fits (or any size under a
/// compact or infinite offer) as it is.
pub proof fn lemma_clipping_fits_the_proposal(dimension: Dimension, proposal: ProposedDimension)
    ensures
        fits_proposal(proposal, clipped_to_proposal(dimension, proposal)),
        clipped_to_proposal(dimension, proposal).0 <= dimension.0,
        fits_proposal(proposal, dimension) ==> clipped_to_proposal(dimension, proposal) == dimension,
        proposal matches ProposedDimension::Exact(d) ==> (dimension.0 > d ==> clipped_to_proposal(
            dimension,
            proposal,
        ).0 == d),
{
}

} // verus!
