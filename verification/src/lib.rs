//! Verified core of an in-process helper that redirects a game client's
//! web requests to a local server and neutralises a few rendering routines.

use vstd::prelude::*;
use crate::modules::ModuleType;

pub mod marshal;
pub mod modules;
pub mod text;
pub mod util;

verus! {

/// The local server that redirected requests go to.
pub const URL: &'static str = "http://127.0.0.1:619";

/// The module whose code is patched.
pub const GAME_ASSEMBLY: &'static str = "GameAssembly.dll";

/// The reason code with which the loader is told that it was attached to a
/// process.
pub const DLL_PROCESS_ATTACH: u32 = 1;

/// How long to wait before looking for the game module again.
pub const RETRY_MILLIS: u64 = 500;

/// The client builds whose routine offsets are known.
#[derive(Clone, Copy, Debug, PartialEq, Eq, Structural)]
pub enum ClientBuild {
    /// The build the helper targets now.
    Current,
    /// The earlier build, patched through `SetUrl`.
    Earlier,
}

/// Offset of the managed runtime's `PtrToStringAnsi` in the game module.
pub const STRING_ADDR_OFFSET: usize = 0x000D4500;

/// Offset of the routine that builds the initial request URL.
pub const MAKE_INITIAL_URL_OFFSET: usize = 0x070EABD0;

/// Offsets of the dithering routines that are made to return at once:
/// `SetElevationDitherAlphaValue`, `SetDistanceDitherAlphaValue`,
/// `SetDitherAlphaValue` and `SetDitherAlphaValueWithAnimation`.
pub const SET_ELEVATION_DITHER_OFFSET: usize = 0x08A1A310;

pub const SET_DISTANCE_DITHER_OFFSET: usize = 0x08A1A610;

pub const SET_DITHER_OFFSET: usize = 0x08A10510;

pub const SET_DITHER_WITH_ANIMATION_OFFSET: usize = 0x08A0F410;

/// In the earlier build: `PtrToStringAnsi`.
pub const EARLIER_STRING_ADDR_OFFSET: usize = 0x0D63E6F0;

/// In the earlier build: the routine that builds the initial request URL.
pub const EARLIER_SET_URL_OFFSET: usize = 0x056288F0;

/// In the earlier build: the four dithering routines, in the order above.
pub const EARLIER_SET_ELEVATION_DITHER_OFFSET: usize = 0x06E47CD0;

pub const EARLIER_SET_DISTANCE_DITHER_OFFSET: usize = 0x06E47FB0;

pub const EARLIER_SET_DITHER_OFFSET: usize = 0x06E3DD50;

pub const EARLIER_SET_DITHER_WITH_ANIMATION_OFFSET: usize = 0x06E3CCA0;

/// Offset of `PtrToStringAnsi` in a build.
pub open spec fn string_addr_offset(build: ClientBuild) -> usize {
    match build {
        ClientBuild::Current => STRING_ADDR_OFFSET,
        ClientBuild::Earlier => EARLIER_STRING_ADDR_OFFSET,
    }
}

/// The largest offset a build's plan adds to the base address.
pub open spec fn max_offset(build: ClientBuild) -> usize {
    match build {
        ClientBuild::Current => SET_DISTANCE_DITHER_OFFSET,
        ClientBuild::Earlier => EARLIER_STRING_ADDR_OFFSET,
    }
}

/// The largest offset a build's plan adds to the base address.
pub fn max_plan_offset(build: ClientBuild) -> (r: usize)
    ensures
        r == max_offset(build),
{
    match build {
        ClientBuild::Current => SET_DISTANCE_DITHER_OFFSET,
        ClientBuild::Earlier => EARLIER_STRING_ADDR_OFFSET,
    }
}

/// Whether the loader starts its work for this notification: only when it
/// was attached to a process.
pub fn should_start_loader(call_reason: u32) -> (r: bool)
    ensures
        r == (call_reason == DLL_PROCESS_ATTACH),
{
    call_reason == DLL_PROCESS_ATTACH
}

/// A module to enable, and the address of the routine it patches.
#[derive(Clone, Copy, Debug, PartialEq, Eq)]
pub struct PlannedModule {
    pub module_type: ModuleType,
    pub address: usize,
}

/// What is set up once the game module is loaded at some base address.
pub struct InjectionPlan {
    /// Address of the runtime's string marshaller.
    pub string_addr: usize,
    /// Modules to enable, in order.
    pub modules: Vec<PlannedModule>,
}

/// The modules enabled on injection in a build, each with the offset of its
/// routine.
pub open spec fn planned_offsets(build: ClientBuild) -> Seq<(ModuleType, usize)> {
    match build {
        ClientBuild::Current => seq![
            (ModuleType::Http, MAKE_INITIAL_URL_OFFSET),
            (ModuleType::DisableCensorship, SET_ELEVATION_DITHER_OFFSET),
            (ModuleType::DisableCensorship, SET_DISTANCE_DITHER_OFFSET),
            (ModuleType::DisableCensorship, SET_DITHER_OFFSET),
            (ModuleType::DisableCensorship, SET_DITHER_WITH_ANIMATION_OFFSET),
        ],
        ClientBuild::Earlier => seq![
            (ModuleType::Http, EARLIER_SET_URL_OFFSET),
            (ModuleType::DisableCensorship, EARLIER_SET_ELEVATION_DITHER_OFFSET),
            (ModuleType::DisableCensorship, EARLIER_SET_DISTANCE_DITHER_OFFSET),
            (ModuleType::DisableCensorship, EARLIER_SET_DITHER_OFFSET),
            (ModuleType::DisableCensorship, EARLIER_SET_DITHER_WITH_ANIMATION_OFFSET),
        ],
    }
}

/// `plan` is the plan for `build` with the game module loaded at `base`:
/// every address is `base` plus the routine's offset.
pub open spec fn is_plan_for(plan: InjectionPlan, build: ClientBuild, base: usize) -> bool {
    &&& plan.string_addr == base + string_addr_offset(build)
    &&& plan.modules@.len() == planned_offsets(build).len()
    &&& forall|i: int|
        0 <= i < planned_offsets(build).len() ==> #[trigger] plan.modules@[i] == (PlannedModule {
            module_type: planned_offsets(build)[i].0,
            address: (base + planned_offsets(build)[i].1) as usize,
        })
}

fn plan_with(
    base: usize,
    string_offset: usize,
    url_offset: usize,
    dither_offsets: (usize, usize, usize, usize),
) -> (r: InjectionPlan)
    requires
        base + string_offset <= usize::MAX,
        base + url_offset <= usize::MAX,
        base + dither_offsets.0 <= usize::MAX,
        base + dither_offsets.1 <= usize::MAX,
        base + dither_offsets.2 <= usize::MAX,
        base + dither_offsets.3 <= usize::MAX,
    ensures
        r.string_addr == base + string_offset,
        r.modules@ == seq![
            PlannedModule { module_type: ModuleType::Http, address: (base + url_offset) as usize },
            PlannedModule { module_type: ModuleType::DisableCensorship, address: (base + dither_offsets.0) as usize },
            PlannedModule { module_type: ModuleType::DisableCensorship, address: (base + dither_offsets.1) as usize },
            PlannedModule { module_type: ModuleType::DisableCensorship, address: (base + dither_offsets.2) as usize },
            PlannedModule { module_type: ModuleType::DisableCensorship, address: (base + dither_offsets.3) as usize },
        ],
{
    let (d0, d1, d2, d3) = dither_offsets;
    let mut modules: Vec<PlannedModule> = Vec::new();
    modules.push(PlannedModule { module_type: ModuleType::Http, address: base + url_offset });
    modules.push(PlannedModule { module_type: ModuleType::DisableCensorship, address: base + d0 });
    modules.push(PlannedModule { module_type: ModuleType::DisableCensorship, address: base + d1 });
    modules.push(PlannedModule { module_type: ModuleType::DisableCensorship, address: base + d2 });
    modules.push(PlannedModule { module_type: ModuleType::DisableCensorship, address: base + d3 });
    let r = InjectionPlan { string_addr: base + string_offset, modules };
    assert(r.modules@ =~= seq![
        PlannedModule { module_type: ModuleType::Http, address: (base + url_offset) as usize },
        PlannedModule { module_type: ModuleType::DisableCensorship, address: (base + d0) as usize },
        PlannedModule { module_type: ModuleType::DisableCensorship, address: (base + d1) as usize },
        PlannedModule { module_type: ModuleType::DisableCensorship, address: (base + d2) as usize },
        PlannedModule { module_type: ModuleType::DisableCensorship, address: (base + d3) as usize },
    ]);
    r
}

/// The plan for `build` with the game module loaded at `base`.
pub fn injection_plan(build: ClientBuild, base: usize) -> (r: InjectionPlan)
    requires
        base + max_offset(build) <= usize::MAX,
    ensures
        is_plan_for(r, build, base),
{
    match build {
        ClientBuild::Current => plan_with(
            base,
            STRING_ADDR_OFFSET,
            MAKE_INITIAL_URL_OFFSET,
            (SET_ELEVATION_DITHER_OFFSET, SET_DISTANCE_DITHER_OFFSET, SET_DITHER_OFFSET,
            SET_DITHER_WITH_ANIMATION_OFFSET),
        ),
        ClientBuild::Earlier => plan_with(
            base,
            EARLIER_STRING_ADDR_OFFSET,
            EARLIER_SET_URL_OFFSET,
            (EARLIER_SET_ELEVATION_DITHER_OFFSET, EARLIER_SET_DISTANCE_DITHER_OFFSET, EARLIER_SET_DITHER_OFFSET,
            EARLIER_SET_DITHER_WITH_ANIMATION_OFFSET),
        ),
    }
}

/// What the loader does next.
pub enum LoaderStep {
    /// Wait this many milliseconds, then look for the game module again.
    Wait(u64),
    /// Set up everything in the plan.
    Inject(InjectionPlan),
}

/// The loader's decision once it has looked for the game module: `None`
/// when the module is not loaded yet, else its base address.
pub fn loader_step(build: ClientBuild, found: Option<usize>) -> (r: LoaderStep)
    requires
        found matches Some(b) ==> b + max_offset(build) <= usize::MAX,
    ensures
        match found {
            None => r matches LoaderStep::Wait(ms) && ms == RETRY_MILLIS,
            Some(b) => r matches LoaderStep::Inject(p) && is_plan_for(p, build, b),
        },
{
    match found {
        None => LoaderStep::Wait(RETRY_MILLIS),
        Some(b) => LoaderStep::Inject(injection_plan(build, b)),
    }
}

} // verus!
