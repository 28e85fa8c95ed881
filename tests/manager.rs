use my_daw_lib::manager::{ManifestBackend, ManifestEntry, PluginManager, PluginSource};
use my_daw_lib::plugin::{PluginInfo, PluginType};

fn info(id: &str, name: &str, kind: PluginType) -> PluginInfo {
    PluginInfo {
        name: name.to_string(),
        vendor: "My DAW".to_string(),
        url: String::new(),
        plugin_type: kind,
        unique_id: id.to_string(),
    }
}

#[test]
fn builtin_module_names() {
    assert_eq!(PluginManager::builtin_module_for_unique_id("com.mydaw.simplesynth"), Some("simple_synth".to_string()));
    assert_eq!(PluginManager::builtin_module_for_unique_id("com.mydaw.wavegenerator"), Some("wave_generator".to_string()));
    assert_eq!(PluginManager::builtin_module_for_unique_id("com.mydaw.gainfader"), Some("gain_fader".to_string()));
    assert_eq!(PluginManager::builtin_module_for_unique_id("com.mydaw.levelmeter"), Some("level_meter".to_string()));
    assert_eq!(PluginManager::builtin_module_for_unique_id("com.other"), None);
}

#[test]
fn empty_registry_knows_nothing() {
    let m = PluginManager::new();
    assert!(m.get_available_plugins().is_empty());
    assert!(matches!(m.get_plugin_source("com.mydaw.gainfader"), PluginSource::Unknown));
}

#[test]
fn rescan_registers_local_libraries_under_manifest_names() {
    let mut m = PluginManager::new();
    m.register_clap("/old/x.clap".to_string(), info("com.old", "Old", PluginType::Clap));
    let found = vec![
        ManifestEntry {
            id: "com.mydaw.gainfader".to_string(),
            name: "Gain Fader".to_string(),
            backend: ManifestBackend::Local {
                path: "/p/libgain.so".to_string(),
                info: Some(info("whatever", "lib name", PluginType::Native)),
            },
        },
        ManifestEntry {
            id: "com.mydaw.broken".to_string(),
            name: "Broken".to_string(),
            backend: ManifestBackend::Local { path: "/p/libbroken.so".to_string(), info: None },
        },
        ManifestEntry {
            id: "com.mydaw.simplesynth".to_string(),
            name: "Synth".to_string(),
            backend: ManifestBackend::Builtin { module: "simple_synth".to_string() },
        },
    ];
    m.rescan(found);
    let all = m.get_available_plugins();
    assert_eq!(all.len(), 1);
    assert_eq!(all[0].unique_id, "com.mydaw.gainfader");
    assert_eq!(all[0].name, "Gain Fader");
    assert_eq!(all[0].vendor, "My DAW");
    match m.get_plugin_source("com.mydaw.gainfader") {
        PluginSource::Local(p) => assert_eq!(p, "/p/libgain.so"),
        other => panic!("unexpected {:?}", other),
    }
    match m.get_plugin_source("com.mydaw.broken") {
        PluginSource::Local(p) => assert_eq!(p, "/p/libbroken.so"),
        other => panic!("unexpected {:?}", other),
    }
    assert!(matches!(m.get_plugin_source("com.mydaw.simplesynth"), PluginSource::Unknown));
    assert!(matches!(m.get_plugin_source("com.old"), PluginSource::Unknown));
}

#[test]
fn clap_paths_and_builtin_fallback() {
    let mut m = PluginManager::new();
    m.register_clap("/c/synth.clap".to_string(), info("com.vendor.synth", "Synth", PluginType::Clap));
    match m.get_plugin_source("com.vendor.synth") {
        PluginSource::Clap(p) => assert_eq!(p, "/c/synth.clap"),
        other => panic!("unexpected {:?}", other),
    }
    m.register_clap("/c/lm.clap".to_string(), info("com.mydaw.levelmeter", "Meter", PluginType::Native));
    assert!(matches!(m.get_plugin_source("com.mydaw.levelmeter"), PluginSource::Clap(_)));
    assert_eq!(m.get_available_plugins().len(), 2);
}

#[test]
fn path_getters_follow_registrations() {
    let mut m = PluginManager::new();
    assert_eq!(m.clap_path_of("com.vendor.fx"), None);
    m.register_clap("/c/fx.clap".to_string(), info("com.vendor.fx", "Fx", PluginType::Clap));
    m.register_manifest(ManifestEntry {
        id: "com.vendor.fx".to_string(),
        name: "Fx".to_string(),
        backend: ManifestBackend::Local { path: "/l/libfx.so".to_string(), info: None },
    });
    assert_eq!(m.clap_path_of("com.vendor.fx"), Some("/c/fx.clap".to_string()));
    assert_eq!(m.local_path_of("com.vendor.fx"), Some("/l/libfx.so".to_string()));
    assert!(matches!(m.get_plugin_source("com.vendor.fx"), PluginSource::Local(_)));
    m.register_clap("/c/fx2.clap".to_string(), info("com.vendor.fx", "Fx 2", PluginType::Clap));
    assert_eq!(m.clap_path_of("com.vendor.fx"), Some("/c/fx2.clap".to_string()));
    assert_eq!(m.get_available_plugins().len(), 1);
    assert_eq!(m.get_available_plugins()[0].name, "Fx 2");
}
