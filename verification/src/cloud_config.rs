//! How the cloud configuration bundle is loaded at startup and kept fresh.
use crate::auth_route::AuthRouteConfig;
use crate::threads::path::LocalPath;
use vstd::prelude::*;

verus! {

/// Which authentication manager loads the bundle.
#[derive(Debug, PartialEq, Eq)]
pub enum AuthManagerChoice {
    /// One of its own, with an explicit route.
    WithRoute(AuthRouteConfig),
    /// The one that is shared by default.
    Shared,
}

/// How the authentication manager is set up.
#[derive(Debug, PartialEq, Eq)]
pub struct AuthManagerSetup<Mode> {
    pub choice: AuthManagerChoice,
    pub codex_home: LocalPath,
    pub enable_codex_api_key_env: bool,
    pub credentials_store_mode: Mode,
    pub chatgpt_base_url: Option<String>,
}

/// How the service that loads the bundle is set up.
#[derive(Debug, PartialEq, Eq)]
pub struct BundleService<Auth> {
    pub auth_manager: Auth,
    pub chatgpt_base_url: String,
    pub codex_home: LocalPath,
}

/// The service that loads the bundle with an authentication manager.
pub fn cloud_config_bundle_loader<Auth>(
    auth_manager: Auth,
    chatgpt_base_url: String,
    codex_home: LocalPath,
) -> (service: BundleService<Auth>)
    ensures
        service.auth_manager == auth_manager,
        service.chatgpt_base_url == chatgpt_base_url,
        service.codex_home == codex_home,
{
    BundleService { auth_manager, chatgpt_base_url, codex_home }
}

/// Whether a service and its authentication manager are set up for the given
/// storage and route.
pub open spec fn is_set_up_for<Mode>(
    service: BundleService<AuthManagerSetup<Mode>>,
    codex_home: LocalPath,
    enable_codex_api_key_env: bool,
    credentials_store_mode: Mode,
    chatgpt_base_url: String,
    auth_route_config: Option<AuthRouteConfig>,
) -> bool {
    let auth = service.auth_manager;
    &&& service.chatgpt_base_url == chatgpt_base_url
    &&& service.codex_home == codex_home
    &&& auth.codex_home@ == codex_home@
    &&& auth.enable_codex_api_key_env == enable_codex_api_key_env
    &&& auth.credentials_store_mode == credentials_store_mode
    &&& auth.chatgpt_base_url matches Some(url) && url@ == chatgpt_base_url@
    &&& auth.choice == match auth_route_config {
        Some(route) => AuthManagerChoice::WithRoute(route),
        None => AuthManagerChoice::Shared,
    }
}

/// The service that loads the bundle with the stored credentials and the shared
/// authentication manager.
pub fn cloud_config_bundle_loader_for_storage<Mode>(
    codex_home: LocalPath,
    enable_codex_api_key_env: bool,
    credentials_store_mode: Mode,
    chatgpt_base_url: String,
) -> (service: BundleService<AuthManagerSetup<Mode>>)
    ensures
        is_set_up_for(
            service,
            codex_home,
            enable_codex_api_key_env,
            credentials_store_mode,
            chatgpt_base_url,
            None,
        ),
{
    cloud_config_bundle_loader_for_storage_with_auth_route_config(
        codex_home,
        enable_codex_api_key_env,
        credentials_store_mode,
        chatgpt_base_url,
        None,
    )
}

/// The service that loads the bundle with the stored credentials. An explicit
/// route gets an authentication manager of its own.
pub fn cloud_config_bundle_loader_for_storage_with_auth_route_config<Mode>(
    codex_home: LocalPath,
    enable_codex_api_key_env: bool,
    credentials_store_mode: Mode,
    chatgpt_base_url: String,
    auth_route_config: Option<AuthRouteConfig>,
) -> (service: BundleService<AuthManagerSetup<Mode>>)
    ensures
        is_set_up_for(
            service,
            codex_home,
            enable_codex_api_key_env,
            credentials_store_mode,
            chatgpt_base_url,
            auth_route_config,
        ),
{
    let choice = match auth_route_config {
        Some(route) => AuthManagerChoice::WithRoute(route),
        None => AuthManagerChoice::Shared,
    };
    let auth_manager = AuthManagerSetup {
        choice,
        codex_home: codex_home.clone(),
        enable_codex_api_key_env,
        credentials_store_mode,
        chatgpt_base_url: Some(chatgpt_base_url.clone()),
    };
    cloud_config_bundle_loader(auth_manager, chatgpt_base_url, codex_home)
}

/// The place of the task that refreshes the bundle: there is at most one.
#[derive(Debug)]
pub struct RefresherSlot<Task> {
    task: Option<Task>,
}

impl<Task> RefresherSlot<Task> {
    /// The task in the slot.
    pub closed spec fn current(&self) -> Option<Task> {
        self.task
    }

    /// A slot without a task.
    pub fn new() -> (slot: Self)
        ensures
            slot.current() is None,
    {
        RefresherSlot { task: None }
    }

    /// Puts a task into the slot. The task that was there is handed back, to be
    /// aborted.
    pub fn replace(&mut self, task: Task) -> (previous: Option<Task>)
        ensures
            final(self).current() == Some(task),
            previous == old(self).current(),
    {
        let mut slot = Some(task);
        std::mem::swap(&mut self.task, &mut slot);
        slot
    }
}

/// What kind of failure kept the bundle from being loaded.
#[derive(Clone, Copy, Debug, PartialEq, Eq, Structural)]
pub enum CloudConfigBundleLoadErrorCode {
    /// The loading task itself failed.
    Internal,
    /// The service reported the failure.
    Service,
}

/// Why the bundle was not loaded.
#[derive(Clone, Debug, PartialEq, Eq)]
pub struct CloudConfigBundleLoadError {
    pub code: CloudConfigBundleLoadErrorCode,
    pub status_code: Option<u16>,
    pub message: String,
}

/// What the loading task came to. Where the task itself failed, that is an
/// internal error without a status; what the service reports is passed on.
pub fn loaded_bundle<Bundle>(
    joined: Result<Result<Bundle, CloudConfigBundleLoadError>, String>,
) -> (res: Result<Bundle, CloudConfigBundleLoadError>)
    ensures
        match joined {
            Ok(reported) => res == reported,
            Err(cause) => res matches Err(e) && e.code == CloudConfigBundleLoadErrorCode::Internal
                && e.status_code is None && e.message@ == "cloud config bundle load failed: "@
                + cause@,
        },
{
    match joined {
        Ok(reported) => reported,
        Err(cause) => {
            let mut message = "cloud config bundle load failed: ".to_owned();
            message.append(cause.as_str());
            Err(
                CloudConfigBundleLoadError {
                    code: CloudConfigBundleLoadErrorCode::Internal,
                    status_code: None,
                    message,
                },
            )
        },
    }
}

/// A service is set up with what was asked for, each part in its place: both the service
/// and its authentication manager have the home and the address, and the manager is one
/// of its own exactly where there is a route, which it takes.
pub proof fn law_set_up_as_asked<Mode>(
    service: BundleService<AuthManagerSetup<Mode>>,
    codex_home: LocalPath,
    enable_codex_api_key_env: bool,
    credentials_store_mode: Mode,
    chatgpt_base_url: String,
    auth_route_config: Option<AuthRouteConfig>,
)
    requires
        is_set_up_for(
            service,
            codex_home,
            enable_codex_api_key_env,
            credentials_store_mode,
            chatgpt_base_url,
            auth_route_config,
        ),
    ensures
        service.chatgpt_base_url@ == chatgpt_base_url@,
        service.codex_home@ == codex_home@,
        service.auth_manager.codex_home@ == codex_home@,
        service.auth_manager.chatgpt_base_url is Some,
        service.auth_manager.chatgpt_base_url->0@ == chatgpt_base_url@,
        service.auth_manager.enable_codex_api_key_env == enable_codex_api_key_env,
        service.auth_manager.credentials_store_mode == credentials_store_mode,
        service.auth_manager.choice is Shared <==> auth_route_config is None,
        service.auth_manager.choice matches AuthManagerChoice::WithRoute(route)
            ==> auth_route_config == Some(route),
{
}

} // verus!
