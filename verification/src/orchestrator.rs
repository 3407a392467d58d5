//! The choice of devices: which of the devices that the platforms list are
//! GPUs, and whether a platform or a device of a given index exists.

use vstd::prelude::*;
use vstd::string::*;

use crate::ascii::{CH_UPPER_G, CH_UPPER_P, CH_UPPER_U};
use crate::config::Config;
use crate::errors::ErrorKind;

verus! {

/// The text holds the letters `GPU` from place `at` on.
pub open spec fn names_gpu_at(text: Seq<u8>, at: int) -> bool {
    &&& 0 <= at
    &&& at + 3 <= text.len()
    &&& text[at] == CH_UPPER_G
    &&& text[at + 1] == CH_UPPER_P
    &&& text[at + 2] == CH_UPPER_U
}

/// The text holds the letters `GPU` somewhere.
pub open spec fn names_gpu(text: Seq<u8>) -> bool {
    exists|at: int| names_gpu_at(text, at)
}

/// Tells whether the descriptor of a device's type indicates a GPU: whether
/// it holds the letters `GPU`.
pub fn mentions_gpu(descriptor: &str) -> (yes: bool)
    ensures
        yes == names_gpu(descriptor.spec_bytes()),
{
    let text = descriptor.as_bytes();
    let n: usize = text.len();
    if n < 3 {
        return false;
    }
    let mut at: usize = 0;
    while at <= n - 3
        invariant
            3 <= n == text@.len(),
            text@ == descriptor.spec_bytes(),
            at <= n - 2,
            forall|earlier: int| 0 <= earlier < at ==> !names_gpu_at(text@, earlier),
        decreases n - at,
    {
        if text[at] == CH_UPPER_G && text[at + 1] == CH_UPPER_P && text[at + 2] == CH_UPPER_U {
            assert(names_gpu_at(text@, at as int));
            return true;
        }
        at += 1;
    }
    false
}

/// The GPUs among the first devices of platform `platform`, each with the
/// platform's index and its own, in order.
pub open spec fn gpus_of_platform(devices: Seq<bool>, platform: nat) -> Seq<(nat, nat)>
    decreases devices.len(),
{
    if devices.len() == 0 {
        Seq::<(nat, nat)>::empty()
    } else if devices.last() {
        gpus_of_platform(devices.drop_last(), platform).push(
            (platform, (devices.len() - 1) as nat),
        )
    } else {
        gpus_of_platform(devices.drop_last(), platform)
    }
}

/// The GPUs of all platforms, platform by platform.
pub open spec fn gpus_of(platforms: Seq<Seq<bool>>) -> Seq<(nat, nat)>
    decreases platforms.len(),
{
    if platforms.len() == 0 {
        Seq::<(nat, nat)>::empty()
    } else {
        gpus_of(platforms.drop_last()) + gpus_of_platform(
            platforms.last(),
            (platforms.len() - 1) as nat,
        )
    }
}

/// For each platform, which of its devices are GPUs.
pub open spec fn device_kinds(platforms: Seq<Vec<bool>>) -> Seq<Seq<bool>> {
    Seq::new(platforms.len(), |p: int| platforms[p]@)
}

/// The index of a platform or device with the given number, where `count`
/// of them exist.
pub fn checked_index(count: usize, id: u32) -> (index: Result<usize, ErrorKind>)
    ensures
        match index {
            Ok(index) => index == id && id < count,
            Err(kind) => kind == ErrorKind::NoDevices && id >= count,
        },
{
    if (id as u64) < (count as u64) {
        Ok(id as usize)
    } else {
        Err(ErrorKind::NoDevices)
    }
}

/// One configuration for each GPU: that of `base` for the platform and the
/// device of the GPU, in the order of the platforms and of their devices.
/// `platforms` tells for each device of each platform whether it is a GPU.
/// Without any GPU there is nothing to run.
pub fn select_gpus(base: &Config, platforms: &Vec<Vec<bool>>) -> (selected: Result<
    Vec<Config>,
    ErrorKind,
>)
    requires
        platforms@.len() <= u32::MAX,
        forall|p: int| 0 <= p < platforms@.len() ==> (#[trigger] platforms@[p])@.len() <= u32::MAX,
    ensures
        match selected {
            Ok(configs) => {
                &&& configs@.len() > 0
                &&& configs@.len() == gpus_of(device_kinds(platforms@)).len()
                &&& forall|i: int|
                    0 <= i < configs@.len() ==> #[trigger] configs@[i] == (Config {
                        platform_id: gpus_of(device_kinds(platforms@))[i].0 as u32,
                        gpu_device: gpus_of(device_kinds(platforms@))[i].1 as u32,
                        ..*base
                    })
            },
            Err(kind) => kind == ErrorKind::NoDevices && gpus_of(device_kinds(platforms@)).len()
                == 0,
        },
{
    let ghost kinds = device_kinds(platforms@);
    let mut configs: Vec<Config> = Vec::new();
    let mut p: usize = 0;
    assert(kinds.take(0) =~= Seq::<Seq<bool>>::empty());
    while p < platforms.len()
        invariant
            p <= platforms@.len() <= u32::MAX,
            kinds == device_kinds(platforms@),
            forall|q: int|
                0 <= q < platforms@.len() ==> (#[trigger] platforms@[q])@.len() <= u32::MAX,
            configs@.len() == gpus_of(kinds.take(p as int)).len(),
            forall|i: int|
                0 <= i < configs@.len() ==> #[trigger] configs@[i] == (Config {
                    platform_id: gpus_of(kinds.take(p as int))[i].0 as u32,
                    gpu_device: gpus_of(kinds.take(p as int))[i].1 as u32,
                    ..*base
                }),
        decreases platforms@.len() - p,
    {
        let devices = &platforms[p];
        let ghost before = gpus_of(kinds.take(p as int));
        let ghost these = kinds[p as int];
        assert(these == devices@);
        let mut d: usize = 0;
        assert(these.take(0) =~= Seq::<bool>::empty());
        while d < devices.len()
            invariant
                d <= devices@.len() <= u32::MAX,
                p < platforms@.len() <= u32::MAX,
                these == devices@,
                configs@.len() == (before + gpus_of_platform(these.take(d as int), p as nat)).len(),
                forall|i: int|
                    0 <= i < configs@.len() ==> #[trigger] configs@[i] == (Config {
                        platform_id: (before + gpus_of_platform(
                            these.take(d as int),
                            p as nat,
                        ))[i].0 as u32,
                        gpu_device: (before + gpus_of_platform(
                            these.take(d as int),
                            p as nat,
                        ))[i].1 as u32,
                        ..*base
                    }),
            decreases devices@.len() - d,
        {
            let ghost earlier = before + gpus_of_platform(these.take(d as int), p as nat);
            proof {
                let longer = these.take(d + 1);
                assert(longer.drop_last() =~= these.take(d as int));
                assert(longer.last() == these[d as int]);
            }
            if devices[d] {
                configs.push(base.with_device(p as u32, d as u32));
                proof {
                    let now = before + gpus_of_platform(these.take(d + 1), p as nat);
                    assert(now =~= earlier.push((p as nat, d as nat)));
                }
            }
            d += 1;
        }
        proof {
            assert(these.take(d as int) =~= these);
            let longer = kinds.take(p + 1);
            assert(longer.drop_last() =~= kinds.take(p as int));
            assert(longer.last() == these);
        }
        p += 1;
    }
    assert(kinds.take(p as int) =~= kinds);
    if configs.len() == 0 {
        Err(ErrorKind::NoDevices)
    } else {
        Ok(configs)
    }
}

} // verus!
