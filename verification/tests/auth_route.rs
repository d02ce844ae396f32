use codex_host::auth_route::{
    auth_route_config_from_system_proxy_config,
    bootstrap_auth_route_config_from_system_proxy_config, AuthRouteConfig, OutboundProxyConfig,
    OutboundProxyMode, SystemProxyFeatureConfigToml, SystemProxyFeatureModeToml,
};
use codex_host::cloud_config::{
    cloud_config_bundle_loader, cloud_config_bundle_loader_for_storage,
    cloud_config_bundle_loader_for_storage_with_auth_route_config, loaded_bundle,
    AuthManagerChoice, CloudConfigBundleLoadError, CloudConfigBundleLoadErrorCode, RefresherSlot,
};
use codex_host::threads::path::{LocalPath, PathPart};

#[test]
fn system_proxy_feature_config_maps_modes_and_startup_gate_together() {
    assert_eq!(bootstrap_auth_route_config_from_system_proxy_config(None), None);

    let system_config = AuthRouteConfig::system();
    assert_eq!(
        system_config.route_config(),
        Some(&OutboundProxyConfig::new(OutboundProxyMode::System))
    );
    let cases = [
        (None, AuthRouteConfig::auto(), None),
        (Some(SystemProxyFeatureModeToml::Auto), AuthRouteConfig::auto(), None),
        (Some(SystemProxyFeatureModeToml::Env), AuthRouteConfig::env(), None),
        (Some(SystemProxyFeatureModeToml::Direct), AuthRouteConfig::direct(), None),
        (
            Some(SystemProxyFeatureModeToml::System),
            system_config.clone(),
            Some(system_config),
        ),
    ];

    for (mode, expected_config, expected_startup_config) in cases {
        let system_proxy = SystemProxyFeatureConfigToml { enabled: Some(true), mode };
        assert_eq!(auth_route_config_from_system_proxy_config(&system_proxy), expected_config);
        assert_eq!(
            bootstrap_auth_route_config_from_system_proxy_config(Some(&system_proxy)),
            expected_startup_config
        );
    }
}

#[test]
fn route_modes() {
    let mode = |config: AuthRouteConfig| config.route_config().map(|c| c.mode);
    assert_eq!(mode(AuthRouteConfig::auto()), Some(OutboundProxyMode::Auto));
    assert_eq!(mode(AuthRouteConfig::env()), Some(OutboundProxyMode::Env));
    assert_eq!(mode(AuthRouteConfig::direct()), Some(OutboundProxyMode::Direct));
    assert_eq!(mode(AuthRouteConfig::default()), None);
}

fn home() -> LocalPath {
    LocalPath { root: "/".to_string(), parts: vec![PathPart::from_text("codex")], windows: false }
}

#[test]
fn an_explicit_route_gets_its_own_manager() {
    let service = cloud_config_bundle_loader_for_storage_with_auth_route_config(
        home(),
        true,
        7,
        "https://example.test".to_string(),
        Some(AuthRouteConfig::system()),
    );
    assert_eq!(
        service.auth_manager.choice,
        AuthManagerChoice::WithRoute(AuthRouteConfig::system())
    );
    assert_eq!(service.auth_manager.codex_home, home());
    assert!(service.auth_manager.enable_codex_api_key_env);
    assert_eq!(service.auth_manager.credentials_store_mode, 7);
    assert_eq!(
        service.auth_manager.chatgpt_base_url,
        Some("https://example.test".to_string())
    );
    assert_eq!(service.chatgpt_base_url, "https://example.test");
    assert_eq!(service.codex_home, home());
}

#[test]
fn without_a_route_the_manager_is_shared() {
    let service =
        cloud_config_bundle_loader_for_storage(home(), false, "file", "https://b.test".to_string());
    assert_eq!(service.auth_manager.choice, AuthManagerChoice::Shared);
    assert_eq!(service.auth_manager.credentials_store_mode, "file");
    let plain = cloud_config_bundle_loader(3, "u".to_string(), home());
    assert_eq!(plain.auth_manager, 3);
}

#[test]
fn a_new_refresher_replaces_the_old_one() {
    let mut slot = RefresherSlot::new();
    assert_eq!(slot.replace("first"), None);
    assert_eq!(slot.replace("second"), Some("first"));
    assert_eq!(slot.replace("third"), Some("second"));
}

#[test]
fn a_failed_loading_task_is_an_internal_error() {
    let failed: Result<u8, CloudConfigBundleLoadError> =
        loaded_bundle(Err("task panicked".to_string()));
    assert_eq!(
        failed,
        Err(CloudConfigBundleLoadError {
            code: CloudConfigBundleLoadErrorCode::Internal,
            status_code: None,
            message: "cloud config bundle load failed: task panicked".to_string(),
        })
    );
    let reported = CloudConfigBundleLoadError {
        code: CloudConfigBundleLoadErrorCode::Service,
        status_code: Some(401),
        message: "no".to_string(),
    };
    assert_eq!(loaded_bundle::<u8>(Ok(Err(reported.clone()))), Err(reported));
    assert_eq!(loaded_bundle(Ok(Ok(5))), Ok(5));
}
