use firefly_helper::marshal::{c_string_bytes, il2cpp_object_size, read_il2cpp_str, try_read_il2cpp_str};
use firefly_helper::modules::disable_censorship::{DisableCensorship, RET_OPCODE};
use firefly_helper::modules::http::{is_official_url, redirect_url, Http};
use firefly_helper::modules::mhypbase::Mhypbase;
use firefly_helper::modules::res::RES;
use firefly_helper::modules::rsa::RSAEncrypt;
use firefly_helper::modules::sdkutil::SdkUtil;
use firefly_helper::modules::{mhypbase, rsa, sdkutil};
use firefly_helper::modules::{MhyContext, ModuleError, ModuleManager, ModuleType, Registers};
use firefly_helper::text::{decode_utf16_units, encode_utf16_str, str_chars};
use firefly_helper::util::{
    __wide_str, nt_headers_address, nth_match_address, pattern_scan, size_of_image, try_pattern_scan,
};
use firefly_helper::{
    injection_plan, loader_step, max_plan_offset, should_start_loader, ClientBuild, LoaderStep, PlannedModule,
    DLL_PROCESS_ATTACH, RETRY_MILLIS, URL,
};

fn il2cpp_object(text: &str) -> Vec<u8> {
    let units: Vec<u16> = text.encode_utf16().collect();
    let mut obj = vec![0xAAu8; 16];
    obj.extend_from_slice(&(units.len() as u32).to_le_bytes());
    for u in units {
        obj.extend_from_slice(&u.to_le_bytes());
    }
    obj
}

#[test]
fn redirects_official_host_keeping_path() {
    let r = redirect_url("https://sdk.mihoyo.com/hkrpg_global/combo/granter/login?x=1");
    assert_eq!(r.as_deref(), Some("http://127.0.0.1:619/hkrpg_global/combo/granter/login?x=1"));
}

#[test]
fn redirects_every_official_host() {
    for host in ["a.mihoyo.com", "b.hoyoverse.com", "c.starrails.com", "d.bhsr.com"] {
        let url = format!("https://{host}/p");
        assert_eq!(redirect_url(&url).as_deref(), Some("http://127.0.0.1:619/p"));
    }
}

#[test]
fn leaves_patch_downloads_alone() {
    assert_eq!(redirect_url("https://autopatchcn.bhsr.com/client/x.zip"), None);
    assert_eq!(redirect_url("https://autopatchos.starrails.com/client/x.zip"), None);
}

#[test]
fn leaves_other_hosts_alone() {
    assert_eq!(redirect_url("https://example.com/mihoyo"), None);
    assert_eq!(redirect_url(""), None);
    // ".bhsr.com" needs its leading dot
    assert_eq!(redirect_url("https://bhsr.com/x"), None);
}

#[test]
fn redirect_without_path() {
    assert_eq!(redirect_url("https://sdk.mihoyo.com").as_deref(), Some(URL));
    assert_eq!(redirect_url("https://sdk.mihoyo.com/").as_deref(), Some("http://127.0.0.1:619/"));
    assert_eq!(redirect_url("mihoyo.com").as_deref(), Some(URL));
}

#[test]
fn redirect_matches_split_and_join() {
    let url = "https://x.hoyoverse.com/a//b/c/";
    let mut expected = URL.to_string();
    url.split('/').skip(3).for_each(|s| {
        expected.push('/');
        expected.push_str(s);
    });
    assert_eq!(redirect_url(url), Some(expected));
}

#[test]
fn redirect_is_idempotent() {
    let once = redirect_url("https://sdk.mihoyo.com/mihoyo.com/x").unwrap();
    assert_eq!(once, "http://127.0.0.1:619/mihoyo.com/x");
    assert_eq!(redirect_url(&once), Some(once.clone()));
}

#[test]
fn official_url_check() {
    assert!(is_official_url(&str_chars("https://api.starrails.com/")));
    assert!(!is_official_url(&str_chars("https://autopatchos.hoyoverse.com/")));
}

#[test]
fn utf16_round_trip() {
    let s = "héllo 😀 world";
    let units = encode_utf16_str(s);
    let expected: Vec<u16> = s.encode_utf16().collect();
    assert_eq!(units, expected);
    assert_eq!(decode_utf16_units(&units).as_deref(), Some(s));
}

#[test]
fn utf16_surrogate_pair() {
    assert_eq!(encode_utf16_str("😀"), vec![0xD83D, 0xDE00]);
    assert_eq!(decode_utf16_units(&[0xD83D, 0xDE00]).as_deref(), Some("😀"));
}

#[test]
fn utf16_unpaired_surrogates_rejected() {
    assert_eq!(decode_utf16_units(&[0x61, 0xD83D]), None);
    assert_eq!(decode_utf16_units(&[0xDE00, 0x61]), None);
    assert_eq!(decode_utf16_units(&[0xD83D, 0x61]), None);
}

#[test]
fn wide_str_is_nul_terminated() {
    assert_eq!(__wide_str("GameAssembly.dll"), "GameAssembly.dll".encode_utf16().chain(Some(0)).collect::<Vec<u16>>());
    assert_eq!(__wide_str(""), vec![0]);
}

#[test]
fn chars_of_str() {
    let v = str_chars("añb");
    assert_eq!(v, vec!['a', 'ñ', 'b']);
}

#[test]
fn il2cpp_string_is_read() {
    let obj = il2cpp_object("Assets/Path/Ünïcode😀");
    assert_eq!(il2cpp_object_size(&obj[..20]), Some(obj.len()));
    assert_eq!(read_il2cpp_str(&obj), "Assets/Path/Ünïcode😀");
    assert_eq!(try_read_il2cpp_str(&obj).as_deref(), Some("Assets/Path/Ünïcode😀"));
}

#[test]
fn il2cpp_read_ignores_trailing_bytes() {
    let mut obj = il2cpp_object("abc");
    obj.extend_from_slice(&[1, 2, 3, 4]);
    assert_eq!(read_il2cpp_str(&obj), "abc");
}

#[test]
fn il2cpp_truncated_or_invalid() {
    let obj = il2cpp_object("abcd");
    assert_eq!(try_read_il2cpp_str(&obj[..obj.len() - 1]), None);
    assert_eq!(il2cpp_object_size(&obj[..19]), None);
    let mut bad = vec![0u8; 16];
    bad.extend_from_slice(&1u32.to_le_bytes());
    bad.extend_from_slice(&0xD800u16.to_le_bytes());
    assert_eq!(try_read_il2cpp_str(&bad), None);
}

#[test]
fn il2cpp_length_overflowing_32_bits() {
    let mut h = vec![0u8; 16];
    h.extend_from_slice(&0x8000_0000u32.to_le_bytes());
    assert_eq!(il2cpp_object_size(&h), None);
    let mut h2 = vec![0u8; 16];
    h2.extend_from_slice(&0x7FFF_FFFFu32.to_le_bytes());
    assert_eq!(il2cpp_object_size(&h2), Some(20 + 2 * 0x7FFF_FFFF));
}

#[test]
fn c_string_bytes_frames_with_nul() {
    assert_eq!(c_string_bytes("abc"), Some(vec![b'a', b'b', b'c', 0]));
    assert_eq!(c_string_bytes("é"), Some(vec![0xC3, 0xA9, 0]));
    assert_eq!(c_string_bytes(""), Some(vec![0]));
    assert_eq!(c_string_bytes("a\0b"), None);
}

#[test]
fn pe_headers_are_read() {
    let mut dos = vec![0u8; 64];
    dos[0x3C..0x40].copy_from_slice(&0x100i32.to_le_bytes());
    assert_eq!(nt_headers_address(0x1000, &dos), Some(0x1100));
    dos[0x3C..0x40].copy_from_slice(&(-4i32).to_le_bytes());
    assert_eq!(nt_headers_address(0x1000, &dos), None);
    assert_eq!(nt_headers_address(0x1000, &dos[..0x3F]), None);
    dos[0x3C..0x40].copy_from_slice(&0x10i32.to_le_bytes());
    assert_eq!(nt_headers_address(usize::MAX - 4, &dos), None);

    let mut nt = vec![0u8; 0x108];
    nt[80..84].copy_from_slice(&0x0ABC_D000u32.to_le_bytes());
    assert_eq!(size_of_image(&nt), Some(0x0ABC_D000));
    assert_eq!(size_of_image(&nt[..83]), None);
}

#[test]
fn pattern_scan_finds_nth_match() {
    let image = [0x10u8, 0x20, 0x30, 0x10, 0x40, 0x30];
    assert_eq!(pattern_scan(0x4000, &image, "10 ? 30", 0), Some(0x4000));
    assert_eq!(pattern_scan(0x4000, &image, "10 ? 30", 1), Some(0x4003));
    assert_eq!(pattern_scan(0x4000, &image, "10 ? 30", 2), None);
    assert_eq!(pattern_scan(0x4000, &image, "20 30 10", 0), Some(0x4001));
    assert_eq!(pattern_scan(0x4000, &image, "99", 0), None);
}

#[test]
fn pattern_scan_address_wraps() {
    let image = [0x00u8, 0x55];
    assert_eq!(pattern_scan(usize::MAX, &image, "55", 0), Some(0));
    assert_eq!(nth_match_address(usize::MAX, &vec![2, 5], 1), Some(4));
    assert_eq!(nth_match_address(7, &vec![2, 5], 2), None);
}

#[test]
fn pattern_scan_invalid_pattern() {
    let image = [0x10u8, 0x20, 0x30];
    assert_eq!(try_pattern_scan(0, &image, "10 fff 20", 0), None);
    assert_eq!(try_pattern_scan(0, &image, "20", 0), Some(Some(1)));
}

#[test]
fn module_manager_keeps_one_module_per_kind() {
    let mut m: ModuleManager<&str> = ModuleManager::new();
    assert!(!m.contains(ModuleType::Http));
    assert_eq!(m.enable(ModuleType::Http, "first"), None);
    assert_eq!(m.enable(ModuleType::DisableCensorship, "c1"), None);
    assert_eq!(m.enable(ModuleType::DisableCensorship, "c2"), Some("c1"));
    assert_eq!(m.get(ModuleType::Http), Some(&"first"));
    assert_eq!(m.get(ModuleType::DisableCensorship), Some(&"c2"));
    assert_eq!(m.get(ModuleType::SdkUtil), None);
    assert!(m.contains(ModuleType::DisableCensorship));
    let d: ModuleManager<u8> = ModuleManager::default();
    assert!(!d.contains(ModuleType::RES));
}

#[test]
fn context_reports_kind_and_address() {
    let c = MhyContext::<SdkUtil>::new(Some(0x1234));
    assert_eq!(c.addr, Some(0x1234));
    assert_eq!(c.get_module_type(), ModuleType::SdkUtil);
    assert_eq!(c.hook_address(), Ok(0x1234));
    let none = MhyContext::<SdkUtil>::new(None);
    assert_eq!(none.hook_address(), Err(ModuleError::MissingAddress(ModuleType::SdkUtil)));
    assert_eq!(none.hook_address().unwrap_err().message(), "Cannot find SdkUtil address.");
}

#[test]
fn module_kinds_and_messages() {
    assert_eq!(MhyContext::<Http>::new(None).get_module_type(), ModuleType::Http);
    assert_eq!(MhyContext::<Mhypbase>::new(None).get_module_type(), ModuleType::Mhypbase);
    assert_eq!(MhyContext::<RSAEncrypt>::new(None).get_module_type(), ModuleType::RSAEncrypt);
    assert_eq!(MhyContext::<RES>::new(None).get_module_type(), ModuleType::RES);
    let dc = MhyContext::<DisableCensorship>::new(None);
    assert_eq!(dc.get_module_type(), ModuleType::DisableCensorship);
    assert_eq!(dc.hook_address().unwrap_err().message(), "Cannot find DisableCensorship address.");
    assert_eq!(MhyContext::<RES>::new(None).hook_address().unwrap_err().message(), "Cannot find address.");
    assert_eq!(RET_OPCODE, 0xC3);
}

#[test]
fn hook_routines_return_values() {
    let reg = Registers { rcx: 0x1111, rdx: 0x2222 };
    assert_eq!(sdkutil::hkaddr(&reg), 0x2222);
    assert_eq!(rsa::hkaddr(&reg), 0x2222);
    assert_eq!(mhypbase::hkaddr(), 0);
}

#[test]
fn loader_decisions() {
    assert!(should_start_loader(DLL_PROCESS_ATTACH));
    assert!(!should_start_loader(0));
    assert!(!should_start_loader(2));
    match loader_step(ClientBuild::Current, None) {
        LoaderStep::Wait(ms) => assert_eq!(ms, RETRY_MILLIS),
        LoaderStep::Inject(_) => panic!("injected without a base address"),
    }
    match loader_step(ClientBuild::Current, Some(0x7FF0_0000_0000)) {
        LoaderStep::Inject(p) => assert_eq!(p.string_addr, 0x7FF0_000D_4500),
        LoaderStep::Wait(_) => panic!("waited with a base address"),
    }
}

#[test]
fn injection_plan_addresses() {
    let p = injection_plan(ClientBuild::Current, 0x10000);
    assert_eq!(p.string_addr, 0x10000 + 0x000D4500);
    assert_eq!(
        p.modules,
        vec![
            PlannedModule { module_type: ModuleType::Http, address: 0x10000 + 0x070EABD0 },
            PlannedModule { module_type: ModuleType::DisableCensorship, address: 0x10000 + 0x08A1A310 },
            PlannedModule { module_type: ModuleType::DisableCensorship, address: 0x10000 + 0x08A1A610 },
            PlannedModule { module_type: ModuleType::DisableCensorship, address: 0x10000 + 0x08A10510 },
            PlannedModule { module_type: ModuleType::DisableCensorship, address: 0x10000 + 0x08A0F410 },
        ]
    );
    let top = injection_plan(ClientBuild::Current, usize::MAX - max_plan_offset(ClientBuild::Current));
    assert_eq!(top.modules[2].address, usize::MAX);
}

#[test]
fn plan_applied_to_manager() {
    let p = injection_plan(ClientBuild::Current, 0);
    let mut m: ModuleManager<usize> = ModuleManager::new();
    for pm in &p.modules {
        m.enable(pm.module_type, pm.address);
    }
    assert_eq!(m.get(ModuleType::Http), Some(&0x070EABD0));
    assert_eq!(m.get(ModuleType::DisableCensorship), Some(&0x08A0F410));
}

#[test]
fn earlier_build_plan_addresses() {
    let p = injection_plan(ClientBuild::Earlier, 0x20000);
    assert_eq!(p.string_addr, 0x20000 + 0x0D63E6F0);
    assert_eq!(
        p.modules,
        vec![
            PlannedModule { module_type: ModuleType::Http, address: 0x20000 + 0x056288F0 },
            PlannedModule { module_type: ModuleType::DisableCensorship, address: 0x20000 + 0x06E47CD0 },
            PlannedModule { module_type: ModuleType::DisableCensorship, address: 0x20000 + 0x06E47FB0 },
            PlannedModule { module_type: ModuleType::DisableCensorship, address: 0x20000 + 0x06E3DD50 },
            PlannedModule { module_type: ModuleType::DisableCensorship, address: 0x20000 + 0x06E3CCA0 },
        ]
    );
    let top = injection_plan(ClientBuild::Earlier, usize::MAX - max_plan_offset(ClientBuild::Earlier));
    assert_eq!(top.string_addr, usize::MAX);
    match loader_step(ClientBuild::Earlier, Some(0x1000)) {
        LoaderStep::Inject(p) => assert_eq!(p.modules[0].address, 0x1000 + 0x056288F0),
        LoaderStep::Wait(_) => panic!("waited with a base address"),
    }
}

#[test]
fn later_matches_lie_further_on() {
    let image = [0x90u8, 0x90, 0x00, 0x90, 0x90, 0x90];
    let mut last = None;
    for k in 0..6 {
        let a = pattern_scan(0x1000, &image, "90", k);
        if let (Some(p), Some(q)) = (last, a) {
            assert!(p < q);
        }
        if last.is_none() && k > 0 {
            assert_eq!(a, None);
        }
        last = a;
    }
    assert_eq!(pattern_scan(0x1000, &image, "90", 4), Some(0x1005));
    assert_eq!(pattern_scan(0x1000, &image, "90", 5), None);
}
