use vstd::prelude::*;

verus! {

/// How an 8-bit channel is widened to the device's 16-bit range.
#[derive(Clone, Copy, Debug, PartialEq, Eq, Structural)]
pub enum ColorPolicy {
    /// Every value is scaled by 257, so 255 becomes 65535.
    Linear,
    /// Values under the cutoff go dark; the others are scaled by 257.
    Threshold,
}

#[derive(Clone, Copy, Debug, PartialEq, Eq, Structural)]
pub struct ColorConfig {
    pub policy: ColorPolicy,
    pub threshold_cutoff: u8,
}

/// Cutoff used by the threshold policy unless configured otherwise.
pub const DEFAULT_CUTOFF: u8 = 100;

pub open spec fn expand_spec(cfg: ColorConfig, c: u8) -> u16 {
    match cfg.policy {
        ColorPolicy::Linear => (c * 257) as u16,
        ColorPolicy::Threshold => if c < cfg.threshold_cutoff {
            0
        } else {
            (c * 257) as u16
        },
    }
}

impl ColorConfig {
    pub fn linear() -> (r: ColorConfig)
        ensures
            r.policy == ColorPolicy::Linear,
            r.threshold_cutoff == DEFAULT_CUTOFF,
    {
        ColorConfig { policy: ColorPolicy::Linear, threshold_cutoff: DEFAULT_CUTOFF }
    }

    pub fn threshold(cutoff: u8) -> (r: ColorConfig)
        ensures
            r.policy == ColorPolicy::Threshold,
            r.threshold_cutoff == cutoff,
    {
        ColorConfig { policy: ColorPolicy::Threshold, threshold_cutoff: cutoff }
    }
}

/// Widens one channel under the configured policy.
pub fn expand(cfg: ColorConfig, c: u8) -> (r: u16)
    ensures
        r == expand_spec(cfg, c),
        r as int == (if cfg.policy == ColorPolicy::Threshold && c < cfg.threshold_cutoff {
            0
        } else {
            c as int * 257
        }),
{
    match cfg.policy {
        ColorPolicy::Linear => (c as u16) * 257,
        ColorPolicy::Threshold => if c < cfg.threshold_cutoff {
            0
        } else {
            (c as u16) * 257
        },
    }
}

/// Widens a channel whose source range is the device range divided by 256.
pub fn color(c: u8) -> (r: u16)
    ensures
        r as int == c as int * 256,
{
    let w = c as u16;
    proof {
        assert(w < 256 ==> w << 8u16 == w * 256) by (bit_vector);
    }
    w << 8
}

} // verus!
