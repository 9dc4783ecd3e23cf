//! Which of a microphone's configurations a recording uses.

use vstd::prelude::*;

use crate::error;
use crate::error::AppError;

verus! {

/// The sample rate, in Hz, that speech recognition works at.
pub const SPEECH_SAMPLE_RATE: u32 = 16000;

/// How a microphone encodes a sample; `Other` stands for every encoding that recordings do
/// not take.
#[derive(Clone, Copy, Debug, PartialEq, Eq, Structural)]
pub enum SampleFormat {
    F32,
    I16,
    U16,
    Other,
}

/// A configuration that a microphone offers.
#[derive(Clone, Copy, Debug, PartialEq, Eq, Structural)]
pub struct InputConfig {
    pub channels: u16,
    pub min_sample_rate: u32,
    pub max_sample_rate: u32,
    pub sample_format: SampleFormat,
}

/// The configuration that a recording uses: the one at position `config` of those offered, at
/// one sample rate.
#[derive(Clone, Copy, Debug, PartialEq, Eq, Structural)]
pub struct StreamChoice {
    pub config: usize,
    pub channels: u16,
    pub sample_rate: u32,
    pub sample_format: SampleFormat,
}

/// Whether recordings take samples in this encoding.
pub open spec fn is_supported(format: SampleFormat) -> bool {
    format != SampleFormat::Other
}

/// Whether a configuration covers a sample rate.
pub open spec fn covers(config: InputConfig, rate: u32) -> bool {
    config.min_sample_rate <= rate <= config.max_sample_rate
}

/// The rate closest to `target` that a configuration covers.
pub open spec fn closest_rate(config: InputConfig, target: u32) -> u32 {
    if target < config.min_sample_rate {
        config.min_sample_rate
    } else if target > config.max_sample_rate {
        config.max_sample_rate
    } else {
        target
    }
}

/// How far apart two rates are on the circle of 32-bit numbers.
pub open spec fn rate_distance(a: u32, b: u32) -> int {
    let d = if a < b {
        b - a
    } else {
        a - b
    };
    if d <= 0x8000_0000 {
        d
    } else {
        0x1_0000_0000 - d
    }
}

/// Whether position `i` holds a configuration that recordings can take.
pub open spec fn is_usable(configs: Seq<InputConfig>, i: int) -> bool {
    0 <= i < configs.len() && is_supported(configs[i].sample_format)
}

/// Whether position `i` holds a usable configuration with one channel.
pub open spec fn is_mono(configs: Seq<InputConfig>, i: int) -> bool {
    is_usable(configs, i) && configs[i].channels == 1
}

/// Whether position `i` holds a usable configuration that covers the wanted rate.
pub open spec fn is_fit(configs: Seq<InputConfig>, target: u32, i: int) -> bool {
    is_usable(configs, i) && covers(configs[i], target)
}

/// Whether position `i` holds a usable configuration with one channel that covers the wanted
/// rate.
pub open spec fn is_mono_fit(configs: Seq<InputConfig>, target: u32, i: int) -> bool {
    is_mono(configs, i) && covers(configs[i], target)
}

/// How far the configuration at position `i` stays from the wanted rate.
pub open spec fn miss(configs: Seq<InputConfig>, target: u32, i: int) -> int {
    rate_distance(closest_rate(configs[i], target), target)
}

/// Whether position `i` is the one to choose: the first with one channel that covers the
/// wanted rate; failing that, the first that covers it; failing that, the first among those
/// with one channel that come closest to it.
pub open spec fn is_choice(configs: Seq<InputConfig>, target: u32, i: int) -> bool {
    if exists|j: int| is_mono_fit(configs, target, j) {
        &&& is_mono_fit(configs, target, i)
        &&& forall|j: int| 0 <= j < i ==> !is_mono_fit(configs, target, j)
    } else if exists|j: int| is_fit(configs, target, j) {
        &&& is_fit(configs, target, i)
        &&& forall|j: int| 0 <= j < i ==> !is_fit(configs, target, j)
    } else {
        &&& is_mono(configs, i)
        &&& forall|j: int| #[trigger]
            is_mono(configs, j) ==> miss(configs, target, i) <= miss(configs, target, j)
        &&& forall|j: int|
            0 <= j < i && #[trigger] is_mono(configs, j) ==> miss(configs, target, i) < miss(
                configs,
                target,
                j,
            )
    }
}

/// Whether some configuration can be chosen at all.
pub open spec fn has_choice(configs: Seq<InputConfig>, target: u32) -> bool {
    ||| exists|j: int| is_fit(configs, target, j)
    ||| exists|j: int| is_mono(configs, j)
}

/// Whether position `i` holds a usable configuration with one channel whose rates are out of
/// order, so that it covers none.
pub open spec fn is_broken_mono(configs: Seq<InputConfig>, i: int) -> bool {
    is_mono(configs, i) && configs[i].min_sample_rate > configs[i].max_sample_rate
}

/// Whether every configuration that is taken, be it for a while, covers the rate that it is
/// taken at. Where none covers the wanted rate, those with one channel are taken in turn, each
/// one that comes closer to it than all before.
pub open spec fn takes_covered_rates(configs: Seq<InputConfig>, target: u32) -> bool {
    ||| exists|j: int| is_fit(configs, target, j)
    ||| forall|i: int| #[trigger]
        is_broken_mono(configs, i) ==> exists|j: int|
            0 <= j < i && #[trigger] is_mono(configs, j) && miss(configs, target, j) <= miss(
                configs,
                target,
                i,
            )
}

/// The rate that is wanted unless another is given.
pub open spec fn wanted_rate(preferred: Option<u32>) -> u32 {
    match preferred {
        Some(rate) => rate,
        None => SPEECH_SAMPLE_RATE,
    }
}

/// At most one position is the one to choose.
pub proof fn lemma_choice_is_unique(configs: Seq<InputConfig>, target: u32, i: int, j: int)
    requires
        is_choice(configs, target, i),
        is_choice(configs, target, j),
    ensures
        i == j,
{
}

/// What is chosen has a supported encoding and runs at a rate that its configuration covers.
pub proof fn lemma_choice_is_sound(configs: Seq<InputConfig>, target: u32, i: int)
    requires
        is_choice(configs, target, i),
        takes_covered_rates(configs, target),
    ensures
        is_supported(configs[i].sample_format),
        covers(configs[i], closest_rate(configs[i], target)),
{
    if forall|j: int| !is_fit(configs, target, j) {
        assert(!is_broken_mono(configs, i));
    }
}

/// How the samples of a running recording arrive.
#[derive(Clone, Copy, Debug, PartialEq, Eq, Structural)]
pub enum SampleEncoding {
    /// Floating-point numbers.
    F32,
    /// Signed 16-bit numbers.
    I16,
    /// Unsigned 16-bit numbers.
    U16,
}

/// The encoding to open a recording with, for a microphone whose format is called `name`.
pub fn input_encoding(format: SampleFormat, name: &str) -> (encoding: Result<
    SampleEncoding,
    AppError,
>)
    ensures
        match encoding {
            Ok(e) => match format {
                SampleFormat::F32 => e == SampleEncoding::F32,
                SampleFormat::I16 => e == SampleEncoding::I16,
                SampleFormat::U16 => e == SampleEncoding::U16,
                SampleFormat::Other => false,
            },
            Err(e) => !is_supported(format) && error::says(
                e,
                "Unsupported sample format: "@ + name@,
            ),
        },
{
    match format {
        SampleFormat::F32 => Ok(SampleEncoding::F32),
        SampleFormat::I16 => Ok(SampleEncoding::I16),
        SampleFormat::U16 => Ok(SampleEncoding::U16),
        SampleFormat::Other => Err(AppError::because("Unsupported sample format: ", name)),
    }
}

fn is_supported_format(format: SampleFormat) -> (yes: bool)
    ensures
        yes == is_supported(format),
{
    match format {
        SampleFormat::F32 => true,
        SampleFormat::I16 => true,
        SampleFormat::U16 => true,
        SampleFormat::Other => false,
    }
}

fn distance(a: u32, b: u32) -> (d: u32)
    ensures
        d == rate_distance(a, b),
{
    let d: u32 = if a < b {
        b - a
    } else {
        a - b
    };
    if d <= 0x8000_0000 {
        d
    } else {
        u32::MAX - d + 1
    }
}

fn closest(config: InputConfig, target: u32) -> (rate: u32)
    ensures
        rate == closest_rate(config, target),
{
    if target < config.min_sample_rate {
        config.min_sample_rate
    } else if target > config.max_sample_rate {
        config.max_sample_rate
    } else {
        target
    }
}

/// Whether every configuration that [`get_optimal_config`] takes covers the rate that it is
/// taken at.
pub fn rates_are_covered(configs: &Vec<InputConfig>, target: u32) -> (covered: bool)
    ensures
        covered == takes_covered_rates(configs@, target),
{
    let mut sound = true;
    let mut best: Option<u32> = None;
    let mut i: usize = 0;
    while i < configs.len()
        invariant
            i <= configs@.len(),
            forall|j: int| 0 <= j < i ==> !is_fit(configs@, target, j),
            match best {
                Some(d) => {
                    &&& exists|j: int|
                        0 <= j < i && #[trigger] is_mono(configs@, j) && miss(configs@, target, j)
                            == d
                    &&& forall|j: int|
                        0 <= j < i && #[trigger] is_mono(configs@, j) ==> d <= miss(
                            configs@,
                            target,
                            j,
                        )
                },
                None => forall|j: int| 0 <= j < i ==> !is_mono(configs@, j),
            },
            sound == forall|k: int|
                0 <= k < i && #[trigger] is_broken_mono(configs@, k) ==> exists|j: int|
                    0 <= j < k && #[trigger] is_mono(configs@, j) && miss(configs@, target, j)
                        <= miss(configs@, target, k),
        decreases configs.len() - i,
    {
        let config = configs[i];
        if is_supported_format(config.sample_format) {
            if config.min_sample_rate <= target && target <= config.max_sample_rate {
                assert(is_fit(configs@, target, i as int));
                return true;
            }
            if config.channels == 1 {
                assert(is_mono(configs@, i as int));
                let d: u32 = distance(closest(config, target), target);
                let better = match best {
                    Some(b) => d < b,
                    None => true,
                };
                if better {
                    if config.min_sample_rate > config.max_sample_rate {
                        assert(is_broken_mono(configs@, i as int));
                        sound = false;
                    }
                    best = Some(d);
                }
            }
        }
        i += 1;
    }
    assert(forall|j: int| is_fit(configs@, target, j) ==> 0 <= j < i);
    assert(forall|k: int| is_broken_mono(configs@, k) ==> 0 <= k < i);
    sound
}

fn choose_at(configs: &Vec<InputConfig>, config: usize, sample_rate: u32) -> (choice: StreamChoice)
    requires
        config < configs@.len(),
    ensures
        choice == (StreamChoice {
            config,
            channels: configs@[config as int].channels,
            sample_rate,
            sample_format: configs@[config as int].sample_format,
        }),
{
    StreamChoice {
        config,
        channels: configs[config].channels,
        sample_rate,
        sample_format: configs[config].sample_format,
    }
}

/// Chooses the configuration of a recording from those that the microphone offers.
pub fn get_optimal_config(
    configs: Result<Vec<InputConfig>, String>,
    preferred_sample_rate: Option<u32>,
) -> (choice: Result<StreamChoice, AppError>)
    requires
        configs matches Ok(list) ==> takes_covered_rates(
            list@,
            wanted_rate(preferred_sample_rate),
        ),
    ensures
        match configs {
            Err(why) => choice matches Err(e) && error::says(
                e,
                "Failed to enumerate input configs: "@ + why@,
            ),
            Ok(list) => {
                let target = wanted_rate(preferred_sample_rate);
                match choice {
                    Ok(c) => {
                        &&& is_choice(list@, target, c.config as int)
                        &&& c.channels == list@[c.config as int].channels
                        &&& c.sample_format == list@[c.config as int].sample_format
                        &&& c.sample_rate == closest_rate(list@[c.config as int], target)
                    },
                    Err(e) => {
                        &&& !has_choice(list@, target)
                        &&& error::says(
                            e,
                            if list@.len() == 0 {
                                "No supported input configurations were found."@
                            } else if forall|i: int| !is_usable(list@, i) {
                                "No compatible microphone formats were found."@
                            } else {
                                "Failed to choose a microphone config."@
                            },
                        )
                    },
                }
            },
        },
{
    let list = match configs {
        Ok(list) => list,
        Err(why) => {
            return Err(AppError::because("Failed to enumerate input configs: ", why.as_str()));
        },
    };
    let target: u32 = match preferred_sample_rate {
        Some(rate) => rate,
        None => SPEECH_SAMPLE_RATE,
    };
    if list.len() == 0 {
        return Err(AppError::new("No supported input configurations were found."));
    }
    let mut any_usable = false;
    let mut first_fit: Option<usize> = None;
    let mut nearest: Option<(usize, u32, u32)> = None;
    let mut i: usize = 0;
    while i < list.len()
        invariant
            i <= list@.len(),
            configs == Ok::<Vec<InputConfig>, String>(list),
            target == wanted_rate(preferred_sample_rate),
            any_usable == exists|j: int| 0 <= j < i && is_usable(list@, j),
            forall|j: int| 0 <= j < i ==> !is_mono_fit(list@, target, j),
            match first_fit {
                Some(f) => f < i && is_fit(list@, target, f as int) && forall|j: int|
                    0 <= j < f ==> !is_fit(list@, target, j),
                None => forall|j: int| 0 <= j < i ==> !is_fit(list@, target, j),
            },
            match nearest {
                Some((c, rate, d)) => {
                    &&& c < i
                    &&& is_mono(list@, c as int)
                    &&& rate == closest_rate(list@[c as int], target)
                    &&& d == miss(list@, target, c as int)
                    &&& forall|j: int|
                        0 <= j < i && #[trigger] is_mono(list@, j) ==> d <= miss(list@, target, j)
                    &&& forall|j: int|
                        0 <= j < c && #[trigger] is_mono(list@, j) ==> d < miss(list@, target, j)
                },
                None => forall|j: int| 0 <= j < i ==> !is_mono(list@, j),
            },
        decreases list.len() - i,
    {
        let config = list[i];
        if is_supported_format(config.sample_format) {
            assert(is_usable(list@, i as int));
            any_usable = true;
            if config.min_sample_rate <= target && config.max_sample_rate >= target {
                if config.channels == 1 {
                    assert(is_mono_fit(list@, target, i as int));
                    return Ok(choose_at(&list, i, target));
                }
                if first_fit.is_none() {
                    first_fit = Some(i);
                }
            }
            if config.channels == 1 {
                let rate: u32 = closest(config, target);
                let d: u32 = distance(rate, target);
                let better = match nearest {
                    Some((_, _, best)) => d < best,
                    None => true,
                };
                if better {
                    nearest = Some((i, rate, d));
                }
            }
        }
        i += 1;
    }
    assert(forall|j: int| is_mono_fit(list@, target, j) ==> 0 <= j < i);
    assert(forall|j: int| is_fit(list@, target, j) ==> 0 <= j < i);
    assert(forall|j: int| is_mono(list@, j) ==> 0 <= j < i);
    assert(forall|j: int| is_usable(list@, j) ==> 0 <= j < i);
    if !any_usable {
        return Err(AppError::new("No compatible microphone formats were found."));
    }
    if let Some(f) = first_fit {
        return Ok(choose_at(&list, f, target));
    }
    if let Some((c, rate, _)) = nearest {
        return Ok(choose_at(&list, c, rate));
    }
    Err(AppError::new("Failed to choose a microphone config."))
}

/// The distance between two numbers.
pub open spec fn gap(a: int, b: int) -> int {
    if a < b {
        b - a
    } else {
        a - b
    }
}

/// A configuration is taken at a rate that it covers and that is as close to the wanted one as
/// any that it covers; at the wanted one itself exactly where it covers that.
pub proof fn lemma_closest_rate_is_closest(config: InputConfig, target: u32, other: u32)
    requires
        config.min_sample_rate <= config.max_sample_rate,
        covers(config, other),
    ensures
        covers(config, closest_rate(config, target)),
        gap(closest_rate(config, target) as int, target as int) <= gap(other as int, target as int),
        closest_rate(config, target) == target <==> config.min_sample_rate <= target
            <= config.max_sample_rate,
{
}

/// The distance of rates is how far they are apart, up to half of what 32 bits can tell; beyond
/// that it is measured the other way round. It is the same both ways, and zero for equal rates
/// only.
pub proof fn lemma_rate_distance(a: u32, b: u32)
    ensures
        gap(a as int, b as int) <= 0x8000_0000 ==> rate_distance(a, b) == gap(a as int, b as int),
        gap(a as int, b as int) >= 0x8000_0000 ==> rate_distance(a, b) + gap(a as int, b as int)
            == 0x1_0000_0000,
        rate_distance(a, b) == rate_distance(b, a),
        rate_distance(a, b) == 0 <==> a == b,
{
}

/// What is chosen is the best on offer. Any configuration on offer that recordings take and that
/// covers the wanted rate gives way only to one that covers it too, and one with a single channel
/// only to an earlier one of that kind. Where none covers it, what is chosen has a single channel
/// and comes as close to it as any that has.
pub proof fn lemma_choice_is_the_best_on_offer(
    configs: Seq<InputConfig>,
    target: u32,
    chosen: int,
    other: int,
)
    requires
        is_choice(configs, target, chosen),
        0 <= other < configs.len(),
        configs[other].sample_format != SampleFormat::Other,
    ensures
        0 <= chosen < configs.len(),
        configs[chosen].sample_format != SampleFormat::Other,
        ({
            let best = configs[chosen];
            let offer = configs[other];
            let fits = offer.min_sample_rate <= target <= offer.max_sample_rate;
            let best_fits = best.min_sample_rate <= target <= best.max_sample_rate;
            &&& fits ==> best_fits && closest_rate(best, target) == target
            &&& fits && offer.channels == 1 ==> best.channels == 1 && chosen <= other
            &&& fits && best.channels != 1 ==> chosen <= other
            &&& !best_fits ==> best.channels == 1
            &&& !best_fits && offer.channels == 1 ==> rate_distance(
                closest_rate(best, target),
                target,
            ) <= rate_distance(closest_rate(offer, target), target)
            &&& !best_fits && offer.channels == 1 && other < chosen ==> rate_distance(
                closest_rate(best, target),
                target,
            ) < rate_distance(closest_rate(offer, target), target)
        }),
{
    let offer = configs[other];
    assert(is_usable(configs, other));
    if covers(offer, target) {
        assert(is_fit(configs, target, other));
        if offer.channels == 1 {
            assert(is_mono_fit(configs, target, other));
        }
    }
    if offer.channels == 1 {
        assert(is_mono(configs, other));
    }
    if is_mono_fit(configs, target, chosen) {
        assert(is_fit(configs, target, chosen));
    }
}

} // verus!
