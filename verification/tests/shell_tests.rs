use powerusd::shell::{
    can_unload, choose_exe, dev_tree_exe, preview_args, registration_writes, thumbnail_args,
    thumbnail_file_name, thumbnail_size, unregistration_keys, RegistryValue, RegistryWrite,
};

fn text(w: &RegistryWrite) -> (String, String, String) {
    match &w.value {
        RegistryValue::Text(t) => (w.key.clone(), w.name.clone(), t.clone()),
        RegistryValue::Dword(d) => (w.key.clone(), w.name.clone(), format!("dword:{}", d)),
    }
}

#[test]
fn registration_plan() {
    let w = registration_writes("C:\\ext\\powerusd_shell.dll", "C:\\bin\\powerusd.exe");
    assert_eq!(w.len(), 22);
    assert_eq!(
        text(&w[0]),
        (
            "Software\\PowerUSD\\ShellExtension".to_string(),
            "PowerUsdExe".to_string(),
            "C:\\bin\\powerusd.exe".to_string()
        )
    );
    assert_eq!(
        text(&w[1]),
        (
            "Software\\Classes\\CLSID\\{C5D7A75F-95BC-4BD2-9D5D-4DF5C78B68F1}".to_string(),
            String::new(),
            "PowerUSD Thumbnail Provider".to_string()
        )
    );
    assert_eq!(
        text(&w[2]),
        (
            "Software\\Classes\\CLSID\\{C5D7A75F-95BC-4BD2-9D5D-4DF5C78B68F1}\\InProcServer32".to_string(),
            String::new(),
            "C:\\ext\\powerusd_shell.dll".to_string()
        )
    );
    assert_eq!(text(&w[3]).1, "ThreadingModel");
    assert_eq!(text(&w[3]).2, "Apartment");
    assert_eq!(text(&w[4]).1, "DisableProcessIsolation");
    assert_eq!(text(&w[4]).2, "dword:1");
    assert_eq!(text(&w[5]).1, "DisableLowILProcessIsolation");
    assert_eq!(text(&w[6]).2, "PowerUSD Preview Handler");
    assert_eq!(
        text(&w[11]),
        (
            "Software\\Classes\\.usd\\shellex\\{e357fccd-a995-4576-b01f-234630154e96}".to_string(),
            String::new(),
            "{C5D7A75F-95BC-4BD2-9D5D-4DF5C78B68F1}".to_string()
        )
    );
    assert_eq!(
        text(&w[18]).0,
        "Software\\Classes\\.usdz\\shellex\\{8895b1c6-b41f-4c1c-a562-0d564250836f}"
    );
    assert_eq!(
        text(&w[19]),
        (
            "Software\\Microsoft\\Windows\\CurrentVersion\\PreviewHandlers".to_string(),
            "{D2251698-70F2-4770-8BA8-4D1EA4C7E7A6}".to_string(),
            "PowerUSD Preview Handler".to_string()
        )
    );
    assert_eq!(text(&w[21]).2, "PowerUSD Preview Handler");
}

#[test]
fn unregistration_plan() {
    let k = unregistration_keys();
    assert_eq!(k.len(), 10);
    assert_eq!(k[0], "Software\\Classes\\CLSID\\{C5D7A75F-95BC-4BD2-9D5D-4DF5C78B68F1}");
    assert_eq!(k[1], "Software\\Classes\\CLSID\\{D2251698-70F2-4770-8BA8-4D1EA4C7E7A6}");
    assert_eq!(k[9], "Software\\Classes\\.usdz\\shellex\\{8895b1c6-b41f-4c1c-a562-0d564250836f}");
}

#[test]
fn thumbnail_requests() {
    assert_eq!(thumbnail_size(8), 16);
    assert_eq!(thumbnail_size(16), 16);
    assert_eq!(thumbnail_size(256), 256);
    assert_eq!(thumbnail_size(5000), 2048);
    assert_eq!(thumbnail_file_name(12, 345), "powerusd_thumb_12_345.png");
    assert_eq!(
        thumbnail_args("a.usd", "/tmp/t.png", 256),
        vec!["--thumbnail", "a.usd", "--out", "/tmp/t.png", "--size", "256"]
    );
    assert_eq!(preview_args(4096, "a.usd"), vec!["--preview-child", "4096", "--file", "a.usd"]);
}

#[test]
fn viewer_executable_choice() {
    assert_eq!(dev_tree_exe("/a/b/c/d"), Some("/a/target\\release\\powerusd.exe".to_string()));
    assert_eq!(dev_tree_exe("/a"), None);
    let c = vec![
        ("env.exe".to_string(), false),
        ("reg.exe".to_string(), true),
        ("sibling.exe".to_string(), true),
    ];
    assert_eq!(choose_exe(&c), "reg.exe");
    assert_eq!(choose_exe(&vec![("x".to_string(), false)]), "powerusd.exe");
    assert_eq!(choose_exe(&Vec::new()), "powerusd.exe");
    assert!(can_unload(0));
    assert!(!can_unload(2));
}
