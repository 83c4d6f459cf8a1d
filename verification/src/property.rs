//! The closed catalog of settable property names, and the set of properties
//! a surrounding system declares it can evaluate.

use vstd::prelude::*;

verus! {

/// A property name: an identifier for a settable attribute of a track,
/// drawn from a closed catalog. Opaque to the selection engine.
#[derive(Clone, Copy, PartialEq, Eq, Structural, Debug)]
pub enum Property {
    DeviceId,
    GroupId,
    AutoGainControl,
    ChannelCount,
    EchoCancellation,
    Latency,
    NoiseSuppression,
    SampleRate,
    SampleSize,
    AspectRatio,
    FacingMode,
    FrameRate,
    Height,
    Width,
    ResizeMode,
}

pub const DEVICE_ID: Property = Property::DeviceId;

pub const GROUP_ID: Property = Property::GroupId;

pub const AUTO_GAIN_CONTROL: Property = Property::AutoGainControl;

pub const CHANNEL_COUNT: Property = Property::ChannelCount;

pub const ECHO_CANCELLATION: Property = Property::EchoCancellation;

pub const LATENCY: Property = Property::Latency;

pub const NOISE_SUPPRESSION: Property = Property::NoiseSuppression;

pub const SAMPLE_RATE: Property = Property::SampleRate;

pub const SAMPLE_SIZE: Property = Property::SampleSize;

pub const ASPECT_RATIO: Property = Property::AspectRatio;

pub const FACING_MODE: Property = Property::FacingMode;

pub const FRAME_RATE: Property = Property::FrameRate;

pub const HEIGHT: Property = Property::Height;

pub const WIDTH: Property = Property::Width;

pub const RESIZE_MODE: Property = Property::ResizeMode;

/// The whole catalog, in its canonical order.
pub open spec fn spec_all_properties() -> Seq<Property> {
    seq![
        Property::DeviceId,
        Property::GroupId,
        Property::AutoGainControl,
        Property::ChannelCount,
        Property::EchoCancellation,
        Property::Latency,
        Property::NoiseSuppression,
        Property::SampleRate,
        Property::SampleSize,
        Property::AspectRatio,
        Property::FacingMode,
        Property::FrameRate,
        Property::Height,
        Property::Width,
        Property::ResizeMode,
    ]
}

/// The whole catalog, in its canonical order.
pub fn all_properties() -> (r: Vec<Property>)
    ensures
        r@ == spec_all_properties(),
{
    let r = vec![
        Property::DeviceId,
        Property::GroupId,
        Property::AutoGainControl,
        Property::ChannelCount,
        Property::EchoCancellation,
        Property::Latency,
        Property::NoiseSuppression,
        Property::SampleRate,
        Property::SampleSize,
        Property::AspectRatio,
        Property::FacingMode,
        Property::FrameRate,
        Property::Height,
        Property::Width,
        Property::ResizeMode,
    ];
    proof {
        assert(r@ =~= spec_all_properties());
    }
    r
}

/// The set of property names the surrounding system can evaluate;
/// constraints on other properties are dropped by sanitization and ignored
/// by ideal-distance scoring.
#[derive(Clone, Debug)]
pub struct MediaTrackSupportedConstraints {
    props: Vec<Property>,
}

impl View for MediaTrackSupportedConstraints {
    type V = Seq<Property>;

    closed spec fn view(&self) -> Seq<Property> {
        self.props@
    }
}

impl MediaTrackSupportedConstraints {
    /// Declares exactly the given properties supported.
    pub fn from_iter(props: Vec<Property>) -> (r: Self)
        ensures
            r@ == props@,
    {
        MediaTrackSupportedConstraints { props }
    }

    /// An equal set, in fresh storage.
    pub fn duplicate(&self) -> (r: Self)
        ensures
            r@ == self@,
    {
        let mut props: Vec<Property> = Vec::new();
        let mut i: usize = 0;
        while i < self.props.len()
            invariant
                0 <= i <= self@.len(),
                props@ == self@.take(i as int),
            decreases self@.len() - i,
        {
            props.push(self.props[i]);
            proof {
                assert(props@ =~= self@.take(i as int + 1));
            }
            i = i + 1;
        }
        proof {
            assert(self@.take(self@.len() as int) =~= self@);
        }
        MediaTrackSupportedConstraints { props }
    }

    /// Whether `p` is among the supported properties.
    pub fn contains(&self, p: Property) -> (r: bool)
        ensures
            r == self@.contains(p),
    {
        let mut i: usize = 0;
        while i < self.props.len()
            invariant
                0 <= i <= self@.len(),
                forall|j: int| 0 <= j < i ==> self@[j] != p,
            decreases self@.len() - i,
        {
            if self.props[i] == p {
                return true;
            }
            i = i + 1;
        }
        false
    }
}

} // verus!
