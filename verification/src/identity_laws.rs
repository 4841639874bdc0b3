//! What tells one thing from another: subscriptions, their targets and modules,
//! publishers, notifications, and what is recorded and reported of them.

use crate::actor_model;
use crate::device_fetch::{ActionView, FetchAction, FetchError, FetchErrorView};
use crate::fetcher;
use crate::fetcher::{ErrorView, Failure, YangLibraryCacheError};
use crate::metrics;
use crate::metrics::{MetricEvent, Tag, TagView};
use crate::notification::{NotificationVariant, SubscriptionStartedModified};
use crate::subscription;
use crate::subscription::{
    InfoView, ModuleVersionView, PeerIp, SubscriptionId, SubscriptionInfo, Target, TargetView,
    YangPushModuleVersion,
};
use crate::text;
use crate::validation::Step;
use crate::xpath;
use vstd::prelude::*;

verus! {

/// Whether the text is there in both, and the same, or in neither.
pub open spec fn same_text(string: Option<String>, seen: Option<Seq<char>>) -> bool {
    match (string, seen) {
        (Some(s), Some(t)) => s@ == t,
        (None, None) => true,
        _ => false,
    }
}

/// Two addresses are the same only if they are of one family and have the same
/// bits.
pub proof fn law_publishers_are_told_apart(a: PeerIp, b: PeerIp)
    ensures
        a.key() == b.key() <==> a.v6 == b.v6 && a.bits == b.bits,
{
}

/// Whether the module is seen with its name, its revision and its version.
pub open spec fn sees_module(module: YangPushModuleVersion, seen: ModuleVersionView) -> bool {
    &&& seen.name == module.name@
    &&& same_text(module.revision, seen.revision)
    &&& same_text(module.version, seen.version)
}

/// Whether modules are seen one by one, all of them and in their order.
pub open spec fn sees_modules(
    modules: Seq<YangPushModuleVersion>,
    seen: Seq<ModuleVersionView>,
) -> bool {
    &&& seen.len() == modules.len()
    &&& forall|i: int| 0 <= i < modules.len() ==> sees_module(modules[i], #[trigger] seen[i])
}

/// Whether the target is seen with its stream, its datastore, its filters and
/// its start.
pub open spec fn sees_target(target: Target, seen: TargetView) -> bool {
    &&& same_text(target.stream, seen.stream)
    &&& same_text(target.stream_filter, seen.stream_filter)
    &&& same_text(target.replay_start_time, seen.replay_start_time)
    &&& same_text(target.datastore, seen.datastore)
    &&& same_text(target.datastore_subtree_filter, seen.datastore_subtree_filter)
    &&& same_text(target.datastore_xpath_filter, seen.datastore_xpath_filter)
}

/// Modules and targets are seen whole: nothing of them is lost from view.
pub proof fn law_modules_and_targets_are_seen_whole(
    modules: Seq<YangPushModuleVersion>,
    target: Target,
)
    ensures
        sees_modules(modules, subscription::module_views(modules)),
        forall|i: int| 0 <= i < modules.len() ==> sees_module(modules[i], (#[trigger] modules[i])@),
        sees_target(target, target@),
{
}

/// A subscription is seen whole: with its publisher, its id, its target, its
/// times and settings, all of its modules, and its content id. Two that differ
/// in any of these are two.
pub proof fn law_subscription_is_seen_whole(info: SubscriptionInfo)
    ensures
        info@.peer_ip == info.peer_ip,
        info@.id == info.id,
        sees_target(info.target, info@.target),
        same_text(info.stop_time, info@.stop_time),
        same_text(info.transport, info@.transport),
        same_text(info.encoding, info@.encoding),
        same_text(info.purpose, info@.purpose),
        same_text(info.update_trigger, info@.update_trigger),
        sees_modules(info.models@, info@.models),
        info@.content_id == info.content_id@,
{
    law_modules_and_targets_are_seen_whole(info.models@, info.target);
}

/// Whether nothing is known of the subscription but who publishes it and under
/// which id.
pub open spec fn knows_nothing(info: InfoView) -> bool {
    &&& info.target.stream is None
    &&& info.target.stream_filter is None
    &&& info.target.replay_start_time is None
    &&& info.target.datastore is None
    &&& info.target.datastore_subtree_filter is None
    &&& info.target.datastore_xpath_filter is None
    &&& info.stop_time is None
    &&& info.transport is None
    &&& info.encoding is None
    &&& info.purpose is None
    &&& info.update_trigger is None
    &&& info.models.len() == 0
    &&& info.content_id.len() == 0
}

/// A subscription is empty exactly where nothing is known of it, and one that is
/// made empty is filed under the publisher and the id that it is made for.
pub proof fn law_empty_subscriptions(info: InfoView, ip: PeerIp, id: SubscriptionId)
    ensures
        info.is_empty() <==> knows_nothing(info),
        knows_nothing(subscription::empty_info(ip, id)),
        subscription::empty_info(ip, id).peer_ip == ip,
        subscription::empty_info(ip, id).id == id,
{
    if knows_nothing(info) {
        assert(info.models =~= Seq::<ModuleVersionView>::empty());
        assert(info.content_id =~= Seq::<char>::empty());
    }
}

/// A notification belongs to the subscription that it names. One that a
/// subscription was started or modified announces it; no other does.
pub proof fn law_notifications(announced: SubscriptionStartedModified, id: SubscriptionId)
    ensures
        NotificationVariant::SubscriptionStarted(announced).id() == announced.id,
        NotificationVariant::SubscriptionModified(announced).id() == announced.id,
        NotificationVariant::Other(id).id() == id,
        NotificationVariant::SubscriptionStarted(announced).announced() == Some(announced),
        NotificationVariant::SubscriptionModified(announced).announced() == Some(announced),
        NotificationVariant::Other(id).announced() is None,
{
}

/// Whether the target is seen as announced, but for its XPath filter, which is
/// in canonical form where it is there and such a form is known.
pub open spec fn sees_canonical(
    target: Target,
    canonical: Option<Seq<char>>,
    seen: TargetView,
) -> bool {
    &&& same_text(target.stream, seen.stream)
    &&& same_text(target.stream_filter, seen.stream_filter)
    &&& same_text(target.replay_start_time, seen.replay_start_time)
    &&& same_text(target.datastore, seen.datastore)
    &&& same_text(target.datastore_subtree_filter, seen.datastore_subtree_filter)
    &&& match (target.datastore_xpath_filter, canonical) {
        (Some(_), Some(form)) => seen.datastore_xpath_filter == Some(form),
        (filter, _) => same_text(filter, seen.datastore_xpath_filter),
    }
}

/// An announced subscription is described with all that is announced of it: the
/// target, the times and settings, the content id, and every module that is
/// told, in its place and with its name, its revision and its version, and
/// behind these the module that notifications are made of. It is not described
/// at all if and only if no modules are told.
pub proof fn law_announcements_are_described_whole(
    ip: PeerIp,
    announced: SubscriptionStartedModified,
    canonical: Option<Seq<char>>,
)
    ensures
        match (announced.module_version, actor_model::described(ip, announced, canonical)) {
            (None, None) => true,
            (Some(modules), Some(info)) => {
                &&& info.peer_ip == ip
                &&& info.id == announced.id
                &&& sees_canonical(announced.target, canonical, info.target)
                &&& same_text(announced.stop_time, info.stop_time)
                &&& same_text(announced.transport, info.transport)
                &&& same_text(announced.encoding, info.encoding)
                &&& same_text(announced.purpose, info.purpose)
                &&& same_text(announced.update_trigger, info.update_trigger)
                &&& info.models.len() == modules@.len() + 1
                &&& forall|i: int|
                    0 <= i < modules@.len() ==> sees_module(modules@[i], #[trigger] info.models[i])
                &&& info.models.last().name == "ietf-subscribed-notifications"@
                &&& info.models.last().revision is None
                &&& info.models.last().version is None
                &&& match announced.yang_library_content_id {
                    Some(id) => info.content_id == id@,
                    None => info.content_id.len() == 0,
                }
            },
            _ => false,
        },
{
}

/// Two announcements from one publisher that differ in a module, wherever it
/// stands, in the number of modules or in the content id are not described
/// alike.
pub proof fn law_changed_announcements_are_described_differently(
    ip: PeerIp,
    a: SubscriptionStartedModified,
    b: SubscriptionStartedModified,
    canonical: Option<Seq<char>>,
    i: int,
)
    requires
        a.module_version is Some,
        b.module_version is Some,
        ({
            let (first, second) = (a.module_version->0@, b.module_version->0@);
            ||| first.len() != second.len()
            ||| 0 <= i < first.len() && i < second.len() && first[i]@ != second[i]@
            ||| a.yang_library_content_id is Some && b.yang_library_content_id is Some
                && a.yang_library_content_id->0@ != b.yang_library_content_id->0@
        }),
    ensures
        actor_model::described(ip, a, canonical) != actor_model::described(ip, b, canonical),
{
    let (first, second) = (a.module_version->0@, b.module_version->0@);
    let (x, y) = (
        actor_model::described(ip, a, canonical)->0,
        actor_model::described(ip, b, canonical)->0,
    );
    law_announcements_are_described_whole(ip, a, canonical);
    law_announcements_are_described_whole(ip, b, canonical);
    if first.len() == second.len() && 0 <= i < first.len() && first[i]@ != second[i]@ {
        assert(sees_module(first[i], x.models[i]));
        assert(sees_module(second[i], y.models[i]));
        assert(x.models[i] == first[i]@);
        assert(y.models[i] == second[i]@);
    }
}

/// Putting a target into canonical form puts the canonical form in the place of
/// its XPath filter, where it has one and there is such a form.
pub proof fn law_canonical_form_is_taken(target: TargetView, form: Seq<char>)
    ensures
        target.datastore_xpath_filter is Some ==> actor_model::canonical_target(
            target,
            Some(form),
        ).datastore_xpath_filter == Some(form),
        actor_model::canonical_target(target, None) == target,
{
}

/// What is wrong is reported with all that is known of it.
pub proof fn law_errors_are_seen_whole(error: YangLibraryCacheError)
    ensures
        match error {
            YangLibraryCacheError::ModuleNamespaceNotFound { namespace, datastore } => error@ == (
            ErrorView::ModuleNamespaceNotFound { namespace: namespace@, datastore: datastore@ }),
            YangLibraryCacheError::ModulePrefixNotFound(prefix) => error@
                == ErrorView::ModulePrefixNotFound(prefix@),
            YangLibraryCacheError::UnresolvedFilterReference(name) => error@
                == ErrorView::UnresolvedFilterReference(name@),
            YangLibraryCacheError::NoTargetModulesResolved { subscription_id, datastore } => error@
                == (ErrorView::NoTargetModulesResolved { subscription_id, datastore: datastore@ }),
            YangLibraryCacheError::InvalidSubscriptionTarget(why) => error@
                == ErrorView::InvalidSubscriptionTarget(why@),
        },
{
}

/// A result is what was expected only if it has the expected modules, or fails
/// with the expected error and the subscription that it is about.
pub proof fn law_results_are_what_is_expected(
    r: Result<Vec<YangPushModuleVersion>, Failure>,
    expected: Result<Seq<ModuleVersionView>, ErrorView>,
    info: InfoView,
)
    ensures
        fetcher::gives(r, expected, info) <==> match r {
            Ok(modules) => expected matches Ok(views) && views.len() == modules@.len() && forall|
                i: int,
            |
                0 <= i < views.len() ==> #[trigger] views[i] == modules@[i]@,
            Err(failure) => failure.0@ == info && expected == Err::<Seq<ModuleVersionView>, _>(
                failure.1@,
            ),
        },
{
    if let (Ok(modules), Ok(views)) = (r, expected) {
        if views.len() == modules@.len() && forall|i: int|
            0 <= i < views.len() ==> #[trigger] views[i] == modules@[i]@ {
            assert(subscription::module_views(modules@) =~= views);
        }
    }
}

/// What a fetch asks for, and what it ends with, is seen whole.
pub proof fn law_actions_are_seen_whole<E>(action: FetchAction<E>)
    ensures
        match action {
            FetchAction::GetSubscription(id) => action@ == ActionView::<E>::GetSubscription(id),
            FetchAction::GetLibrary => action@ is GetLibrary,
            FetchAction::Load(names) => action@ matches ActionView::Load(seen) && seen.len()
                == names@.len() && forall|i: int|
                0 <= i < seen.len() ==> #[trigger] seen[i] == names@[i]@,
            FetchAction::Close => action@ is Close,
            FetchAction::Done(Ok(info)) => action@ == ActionView::<E>::Done(Ok(info@)),
            FetchAction::Done(Err(failure)) => action@ matches ActionView::Done(Err(seen)) && seen.0
                == failure.0@ && match failure.1 {
                FetchError::Device(error) => seen.1 == FetchErrorView::Device(error),
                FetchError::Library(error) => seen.1 == FetchErrorView::<E>::Library(error@),
            },
        },
{
}

/// What is recorded is seen whole: by which instrument, which value, and all
/// tags in their order.
pub proof fn law_events_are_seen_whole(event: MetricEvent, events: Seq<MetricEvent>)
    ensures
        event@.instrument == event.instrument,
        event@.value == event.value,
        event@.tags.len() == event.tags@.len(),
        forall|i: int| 0 <= i < event.tags@.len() ==> #[trigger] event@.tags[i] == event.tags@[i]@,
        metrics::event_views(events).len() == events.len(),
        forall|i: int|
            0 <= i < events.len() ==> #[trigger] metrics::event_views(events)[i] == events[i]@,
{
}

/// A tag is seen with what it holds.
pub proof fn law_tags_are_seen_whole(tag: Tag)
    ensures
        match tag {
            Tag::PeerAddress(ip) => tag@ == TagView::PeerAddress(ip),
            Tag::PeerPort(port) => tag@ == TagView::PeerPort(port),
            Tag::PublisherId(id) => tag@ == TagView::PublisherId(id),
            Tag::SubscriptionId(id) => tag@ == TagView::SubscriptionId(id),
            Tag::SubscriptionTarget(target) => tag@ == TagView::SubscriptionTarget(target@),
            Tag::RouterContentId(id) => tag@ == TagView::RouterContentId(id@),
            Tag::Dropped(reason) => tag@ == TagView::Dropped(reason),
            Tag::Skipped(reason) => tag@ == TagView::Skipped(reason),
            Tag::LookupBy(by) => tag@ == TagView::LookupBy(by),
        },
{
}

/// A packet that is to be forwarded is seen with what goes on of it.
pub proof fn law_forwards_are_seen_whole<P>(step: Step<P>)
    ensures
        step is Done <==> step@ is Done,
        step is Lookup <==> step@ is Lookup,
        step is Validate <==> step@ is Validate,
        step is Forward <==> step@ is Forward,
        match step {
            Step::Done => true,
            Step::Lookup(_, pending) => step@->Lookup_0 == pending@,
            Step::Validate(pending) => step@->Validate_0 == pending@,
            Step::Forward(notification, pending) => {
                let seen = step@->Forward_0;
                &&& same_text(notification.cached_content_id, seen.content_id)
                &&& seen.info == notification.subscription_info@
                &&& seen.session == notification.session
                &&& seen.packet == notification.packet
                &&& seen.tags == pending@
            },
        },
{
}

/// A text that may be missing is seen where it is there, and as it is.
pub proof fn law_optional_texts_are_seen_whole(string: Option<String>)
    ensures
        same_text(string, text::opt_view(string)),
{
}

/// Parts of a text are seen one by one.
pub proof fn law_parts_are_seen_one_by_one(parts: Seq<&str>)
    ensures
        xpath::str_views(parts).len() == parts.len(),
        forall|i: int| 0 <= i < parts.len() ==> #[trigger] xpath::str_views(parts)[i] == parts[i]@,
{
}

} // verus!
