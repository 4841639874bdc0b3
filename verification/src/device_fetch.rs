//! A fetch from a device, step by step: what to ask the device next, and what
//! the fetch ends with.

use crate::fetcher;
use crate::fetcher::{
    names_of, requested_module_names, select_target_modules, ErrorView, YangLibraryCacheError,
};
use crate::filters::YangPushSubscription;
use crate::notification::SessionInfo;
use crate::subscription;
use crate::subscription::{
    InfoView, ModuleVersionView, PeerAddress, SubscriptionId, SubscriptionInfo,
    YangPushModuleVersion,
};
use crate::text;
use crate::text::copy_opt;
use crate::yanglib::{LibraryView, YangLibrary};
use vstd::prelude::*;

verus! {

/// Why a fetch failed.
#[derive(Debug, PartialEq, Eq)]
pub enum FetchError<E> {
    /// The device could not be reached, or gave no answer.
    Device(E),
    /// The answers of the device lead to no YANG library.
    Library(YangLibraryCacheError),
}

/// What a [`FetchError`] holds.
pub enum FetchErrorView<E> {
    Device(E),
    Library(ErrorView),
}

impl<E> View for FetchError<E> {
    type V = FetchErrorView<E>;

    open spec fn view(&self) -> FetchErrorView<E> {
        match self {
            FetchError::Device(error) => FetchErrorView::Device(*error),
            FetchError::Library(error) => FetchErrorView::Library(error@),
        }
    }
}

/// What came of the last thing that was asked of a device.
#[derive(Debug)]
pub enum FetchEvent<E> {
    /// A session was opened.
    Connected(Result<(), E>),
    /// The device told the subscription.
    Subscription(Result<YangPushSubscription, E>),
    /// The device told its YANG library.
    Library(Result<YangLibrary, E>),
    /// The modules were loaded.
    Loaded(Result<(), E>),
    /// The session was closed, one way or another.
    Closed,
}

/// What is to be asked of a device next.
#[derive(Debug)]
pub enum FetchAction<E> {
    /// To tell a subscription.
    GetSubscription(SubscriptionId),
    /// To tell its YANG library.
    GetLibrary,
    /// To load modules, and those that they depend on, by their names.
    Load(Vec<String>),
    /// To close the session.
    Close,
    /// Nothing: the fetch is over. A failure comes with the subscription that
    /// it is about.
    Done(Result<SubscriptionInfo, Box<(SubscriptionInfo, FetchError<E>)>>),
}

/// What a [`FetchAction`] holds.
pub enum ActionView<E> {
    GetSubscription(SubscriptionId),
    GetLibrary,
    Load(Seq<Seq<char>>),
    Close,
    Done(Result<InfoView, (InfoView, FetchErrorView<E>)>),
}

impl<E> View for FetchAction<E> {
    type V = ActionView<E>;

    open spec fn view(&self) -> ActionView<E> {
        match self {
            FetchAction::GetSubscription(id) => ActionView::GetSubscription(*id),
            FetchAction::GetLibrary => ActionView::GetLibrary,
            FetchAction::Load(names) => ActionView::Load(text::views(names@)),
            FetchAction::Close => ActionView::Close,
            FetchAction::Done(Ok(info)) => ActionView::Done(Ok(info@)),
            FetchAction::Done(Err(failure)) => ActionView::Done(Err((failure.0@, failure.1@))),
        }
    }
}

/// How far a fetch has come.
#[derive(Debug)]
enum Phase {
    Connecting { by_id: bool },
    AwaitingSubscription,
    AwaitingLibrary(YangPushSubscription),
    Loading(Result<SubscriptionInfo, YangLibraryCacheError>),
    Closing(Result<SubscriptionInfo, YangLibraryCacheError>),
    Over,
}

/// How far a fetch has come.
pub enum PhaseView {
    /// A session is being opened, for a subscription of which only the id is
    /// known, or all.
    Connecting { by_id: bool },
    AwaitingSubscription,
    AwaitingLibrary(YangPushSubscription),
    /// Modules are being loaded, and this will come of the fetch if they are.
    Loading(Result<InfoView, ErrorView>),
    /// The session is being closed, and this comes of the fetch.
    Closing(Result<InfoView, ErrorView>),
    Over,
}

spec fn outcome_view(outcome: Result<SubscriptionInfo, YangLibraryCacheError>) -> Result<
    InfoView,
    ErrorView,
> {
    match outcome {
        Ok(info) => Ok(info@),
        Err(error) => Err(error@),
    }
}

impl View for Phase {
    type V = PhaseView;

    closed spec fn view(&self) -> PhaseView {
        match self {
            Phase::Connecting { by_id } => PhaseView::Connecting { by_id: *by_id },
            Phase::AwaitingSubscription => PhaseView::AwaitingSubscription,
            Phase::AwaitingLibrary(told) => PhaseView::AwaitingLibrary(*told),
            Phase::Loading(outcome) => PhaseView::Loading(outcome_view(*outcome)),
            Phase::Closing(outcome) => PhaseView::Closing(outcome_view(*outcome)),
            Phase::Over => PhaseView::Over,
        }
    }
}

/// The state of a fetch.
pub struct FetchView {
    /// The subscription that the fetch is for, as far as it is known.
    pub about: InfoView,
    pub phase: PhaseView,
}

/// A fetch from a device.
#[derive(Debug)]
pub struct DeviceFetch {
    about: SubscriptionInfo,
    phase: Phase,
}

impl View for DeviceFetch {
    type V = FetchView;

    closed spec fn view(&self) -> FetchView {
        FetchView { about: self.about@, phase: self.phase@ }
    }
}

/// What is known of a subscription once its device has told it.
pub open spec fn fetched(
    about: InfoView,
    told: YangPushSubscription,
    modules: Seq<ModuleVersionView>,
    library: LibraryView,
) -> Result<InfoView, ErrorView> {
    match told.target {
        Err(why) => Err(ErrorView::InvalidSubscriptionTarget(why@)),
        Ok(target) => Ok(
            InfoView {
                peer_ip: about.peer_ip,
                id: about.id,
                target: target@,
                stop_time: text::opt_view(told.stop_time),
                transport: text::opt_view(told.transport),
                encoding: text::opt_view(told.encoding),
                purpose: text::opt_view(told.purpose),
                update_trigger: text::opt_view(told.update_trigger),
                models: modules,
                content_id: library.content_id,
            },
        ),
    }
}

/// Whether the fetch waits for such an event.
pub open spec fn expects<E>(fetch: FetchView, event: FetchEvent<E>) -> bool {
    match fetch.phase {
        PhaseView::Connecting { .. } => event is Connected,
        PhaseView::AwaitingSubscription => event is Subscription,
        PhaseView::AwaitingLibrary(_) => event is Library,
        PhaseView::Loading(_) => event is Loaded,
        PhaseView::Closing(_) => event is Closed,
        PhaseView::Over => false,
    }
}

/// A fetch that has failed.
pub open spec fn fails<E>(fetch: FetchView, error: FetchErrorView<E>) -> (
    FetchView,
    ActionView<E>,
) {
    (
        FetchView { phase: PhaseView::Over, ..fetch },
        ActionView::Done(Err((fetch.about, error))),
    )
}

/// The state of a fetch after an event, and what to ask next.
pub open spec fn advance<E>(fetch: FetchView, event: FetchEvent<E>) -> (FetchView, ActionView<E>) {
    match (fetch.phase, event) {
        (PhaseView::Connecting { by_id }, FetchEvent::Connected(Ok(_))) => if by_id {
            (
                FetchView { phase: PhaseView::AwaitingSubscription, ..fetch },
                ActionView::GetSubscription(fetch.about.id),
            )
        } else {
            (
                FetchView { phase: PhaseView::Loading(Ok(fetch.about)), ..fetch },
                ActionView::Load(fetcher::module_names(fetch.about.models)),
            )
        },
        (PhaseView::AwaitingSubscription, FetchEvent::Subscription(Ok(told))) => (
            FetchView { phase: PhaseView::AwaitingLibrary(told), ..fetch },
            ActionView::GetLibrary,
        ),
        (PhaseView::AwaitingLibrary(told), FetchEvent::Library(Ok(library))) =>
            match fetcher::target_modules(library@, fetch.about.id, told) {
            Ok(modules) => (
                FetchView {
                    phase: PhaseView::Loading(fetched(fetch.about, told, modules, library@)),
                    ..fetch
                },
                ActionView::Load(
                    text::add_unique(
                        fetcher::module_names(modules),
                        "ietf-subscribed-notifications"@,
                    ),
                ),
            ),
            Err(error) => fails(fetch, FetchErrorView::Library(error)),
        },
        (PhaseView::Loading(outcome), FetchEvent::Loaded(Ok(_))) => (
            FetchView { phase: PhaseView::Closing(outcome), ..fetch },
            ActionView::Close,
        ),
        (PhaseView::Closing(Ok(info)), FetchEvent::Closed) => (
            FetchView { phase: PhaseView::Over, ..fetch },
            ActionView::Done(Ok(info)),
        ),
        (PhaseView::Closing(Err(error)), FetchEvent::Closed) => fails(
            fetch,
            FetchErrorView::Library(error),
        ),
        (_, FetchEvent::Connected(Err(error))) => fails(fetch, FetchErrorView::Device(error)),
        (_, FetchEvent::Subscription(Err(error))) => fails(fetch, FetchErrorView::Device(error)),
        (_, FetchEvent::Library(Err(error))) => fails(fetch, FetchErrorView::Device(error)),
        (_, FetchEvent::Loaded(Err(error))) => fails(fetch, FetchErrorView::Device(error)),
        _ => (fetch, ActionView::Close),
    }
}

/// Where to reach a device: its address, and the interface or VRF to go
/// through.
#[derive(Debug)]
pub struct DeviceAddress {
    pub host: PeerAddress,
    pub interface: Option<String>,
}

impl DeviceFetch {
    /// Begins to fetch for a subscription of which all is known.
    pub fn fetch_from_device(
        subscription_info: SubscriptionInfo,
        session: &SessionInfo,
        default_port: u16,
    ) -> (r: (DeviceFetch, DeviceAddress))
        ensures
            r.0@ == (FetchView {
                about: subscription_info@,
                phase: PhaseView::Connecting { by_id: false },
            }),
            r.1.host == (PeerAddress { ip: subscription_info.peer_ip, port: default_port }),
            r.1.interface == session.interface,
    {
        let host = PeerAddress { ip: subscription_info.peer_ip, port: default_port };
        (
            DeviceFetch { about: subscription_info, phase: Phase::Connecting { by_id: false } },
            DeviceAddress { host, interface: copy_opt(&session.interface) },
        )
    }

    /// Begins to fetch for a subscription of which only the id is known.
    pub fn fetch_from_device_by_id(
        session: &SessionInfo,
        subscription_id: SubscriptionId,
        default_port: u16,
    ) -> (r: (DeviceFetch, DeviceAddress))
        ensures
            r.0@ == (FetchView {
                about: subscription::empty_info(session.peer.ip, subscription_id),
                phase: PhaseView::Connecting { by_id: true },
            }),
            r.1.host == (PeerAddress { ip: session.peer.ip, port: default_port }),
            r.1.interface == session.interface,
    {
        let host = PeerAddress { ip: session.peer.ip, port: default_port };
        let about = SubscriptionInfo::new_empty(session.peer.ip, subscription_id);
        (
            DeviceFetch { about, phase: Phase::Connecting { by_id: true } },
            DeviceAddress { host, interface: copy_opt(&session.interface) },
        )
    }

    fn fail<E>(&self, error: FetchError<E>) -> (r: FetchAction<E>)
        ensures
            r@ == fails(self@, error@).1,
    {
        FetchAction::Done(Err(Box::new((self.about.clone(), error))))
    }

    /// Moves the fetch on by one event, and says what to ask next.
    pub fn step<E>(self, event: FetchEvent<E>) -> (r: (DeviceFetch, FetchAction<E>))
        requires
            expects(self@, event),
        ensures
            (r.0@, r.1@) == advance(self@, event),
    {
        let (phase, action) = match (&self.phase, event) {
            (_, FetchEvent::Connected(Err(error))) => (
                Phase::Over,
                self.fail(FetchError::Device(error)),
            ),
            (_, FetchEvent::Subscription(Err(error))) => (
                Phase::Over,
                self.fail(FetchError::Device(error)),
            ),
            (_, FetchEvent::Library(Err(error))) => (
                Phase::Over,
                self.fail(FetchError::Device(error)),
            ),
            (_, FetchEvent::Loaded(Err(error))) => (
                Phase::Over,
                self.fail(FetchError::Device(error)),
            ),
            (Phase::Connecting { by_id }, FetchEvent::Connected(Ok(_))) => if *by_id {
                (Phase::AwaitingSubscription, FetchAction::GetSubscription(self.about.id))
            } else {
                (
                    Phase::Loading(Ok(self.about.clone())),
                    FetchAction::Load(names_of(&self.about.models)),
                )
            },
            (_, FetchEvent::Subscription(Ok(told))) => (
                Phase::AwaitingLibrary(told),
                FetchAction::GetLibrary,
            ),
            (Phase::AwaitingLibrary(told), FetchEvent::Library(Ok(library))) =>
                match select_target_modules(&library, self.about.id, told, &self.about) {
                Ok(modules) => {
                    let names = requested_module_names(&modules);
                    let outcome = fetched_subscription_info(
                        &self.about,
                        told,
                        modules,
                        &library,
                    );
                    (Phase::Loading(outcome), FetchAction::Load(names))
                },
                Err(failure) => {
                    let (_, error) = *failure;
                    (Phase::Over, self.fail(FetchError::Library(error)))
                },
            },
            (_, FetchEvent::Loaded(Ok(_))) => {
                let about = self.about;
                return match self.phase {
                    Phase::Loading(outcome) => (
                        DeviceFetch { about, phase: Phase::Closing(outcome) },
                        FetchAction::Close,
                    ),
                    phase => (DeviceFetch { about, phase }, FetchAction::Close),
                };
            },
            (_, FetchEvent::Closed) => {
                let about = self.about;
                return match self.phase {
                    Phase::Closing(Ok(info)) => (
                        DeviceFetch { about, phase: Phase::Over },
                        FetchAction::Done(Ok(info)),
                    ),
                    Phase::Closing(Err(error)) => (
                        DeviceFetch { about: about.clone(), phase: Phase::Over },
                        FetchAction::Done(Err(Box::new((about, FetchError::Library(error))))),
                    ),
                    phase => (DeviceFetch { about, phase }, FetchAction::Close),
                };
            },
            _ => {
                return (self, FetchAction::Close);
            },
        };
        (DeviceFetch { about: self.about, phase }, action)
    }
}

/// What is known of a subscription once its device has told it.
pub fn fetched_subscription_info(
    about: &SubscriptionInfo,
    told: &YangPushSubscription,
    modules: Vec<YangPushModuleVersion>,
    library: &YangLibrary,
) -> (r: Result<SubscriptionInfo, YangLibraryCacheError>)
    ensures
        match r {
            Ok(info) => fetched(
                about@,
                *told,
                subscription::module_views(modules@),
                library@,
            ) == Ok::<InfoView, ErrorView>(info@),
            Err(error) => fetched(
                about@,
                *told,
                subscription::module_views(modules@),
                library@,
            ) == Err::<InfoView, ErrorView>(error@),
        },
{
    match &told.target {
        Err(why) => Err(YangLibraryCacheError::InvalidSubscriptionTarget(why.clone())),
        Ok(target) => Ok(
            SubscriptionInfo {
                peer_ip: about.peer_ip,
                id: about.id,
                target: target.clone(),
                stop_time: copy_opt(&told.stop_time),
                transport: copy_opt(&told.transport),
                encoding: copy_opt(&told.encoding),
                purpose: copy_opt(&told.purpose),
                update_trigger: copy_opt(&told.update_trigger),
                models: modules,
                content_id: library.content_id.clone(),
            },
        ),
    }
}

} // verus!
