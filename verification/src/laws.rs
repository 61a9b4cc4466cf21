//! Properties that hold across the operations on loading states and the
//! registries they fill.

use crate::dynamic_asset::{files_after_adding, listed_files, state_files};
use crate::loading_state::{
    configuration_of, configurations_after_build, LoadingConfigurationView, LoadingStateView,
};
use vstd::prelude::*;

verus! {

/// A loading state told to continue to `next` has `next` as the next state
/// of its configuration once it is built, whatever was configured before.
pub proof fn law_build_sets_next_state<S, A>(
    configurations: Map<S, LoadingConfigurationView<S>>,
    loading: LoadingStateView<S, A>,
    next: S,
)
    ensures
        ({
            let after = configurations_after_build(
                configurations,
                LoadingStateView { next_state: Some(next), ..loading },
            );
            &&& after.contains_key(loading.loading_state)
            &&& after[loading.loading_state].next == Some(next)
        }),
{
}

/// A loading state told to continue to `failure` when an asset fails to
/// load has `failure` as the failure state of its configuration once it is
/// built, whatever was configured before.
pub proof fn law_build_sets_failure_state<S, A>(
    configurations: Map<S, LoadingConfigurationView<S>>,
    loading: LoadingStateView<S, A>,
    failure: S,
)
    ensures
        ({
            let after = configurations_after_build(
                configurations,
                LoadingStateView { failure_state: Some(failure), ..loading },
            );
            &&& after.contains_key(loading.loading_state)
            &&& after[loading.loading_state].failure == Some(failure)
        }),
{
}

/// A loading state that names no next state, or no failure state, keeps
/// the one that its configuration had before it was built.
pub proof fn law_build_keeps_unset_states<S, A>(
    configurations: Map<S, LoadingConfigurationView<S>>,
    loading: LoadingStateView<S, A>,
)
    ensures
        ({
            let before = configuration_of(configurations, loading.loading_state);
            let after = configurations_after_build(configurations, loading)[loading.loading_state];
            &&& loading.next_state is None ==> after.next == before.next
            &&& loading.failure_state is None ==> after.failure == before.failure
        }),
{
}

/// Building a loading state leaves the loading progress of its
/// configuration (failure flag, collections loading) as it was.
pub proof fn law_build_keeps_progress<S, A>(
    configurations: Map<S, LoadingConfigurationView<S>>,
    loading: LoadingStateView<S, A>,
)
    ensures
        ({
            let before = configuration_of(configurations, loading.loading_state);
            let after = configurations_after_build(configurations, loading)[loading.loading_state];
            &&& after.loading_failed == before.loading_failed
            &&& after.loading_collections == before.loading_collections
            &&& after.loading_dynamic_collections == before.loading_dynamic_collections
        }),
{
}

/// Building a loading state leaves the configurations of all other states
/// as they were.
pub proof fn law_build_keeps_other_states<S, A>(
    configurations: Map<S, LoadingConfigurationView<S>>,
    loading: LoadingStateView<S, A>,
    other: S,
)
    requires
        other != loading.loading_state,
    ensures
        configurations_after_build(configurations, loading).contains_key(other)
            == configurations.contains_key(other),
        configurations.contains_key(other) ==> configurations_after_build(configurations, loading)[other]
            == configurations[other],
{
}

/// Building the same loading state a second time changes no configuration.
pub proof fn law_build_twice_is_build_once<S, A>(
    configurations: Map<S, LoadingConfigurationView<S>>,
    loading: LoadingStateView<S, A>,
)
    ensures
        configurations_after_build(configurations_after_build(configurations, loading), loading)
            == configurations_after_build(configurations, loading),
{
    let once = configurations_after_build(configurations, loading);
    assert(configurations_after_build(once, loading) =~= once);
}

/// Loading states of different states can be built in either order.
pub proof fn law_builds_of_different_states_commute<S, A>(
    configurations: Map<S, LoadingConfigurationView<S>>,
    first: LoadingStateView<S, A>,
    second: LoadingStateView<S, A>,
)
    requires
        first.loading_state != second.loading_state,
    ensures
        configurations_after_build(configurations_after_build(configurations, first), second)
            == configurations_after_build(configurations_after_build(configurations, second), first),
{
    assert(configurations_after_build(configurations_after_build(configurations, first), second)
        =~= configurations_after_build(configurations_after_build(configurations, second), first));
}

/// Of two groups of dynamic assets added one after the other, an asset of
/// the later group replaces one of the earlier group under the same key;
/// every other key keeps its asset.
pub proof fn law_later_dynamic_assets_win<A>(
    registered: Map<Seq<char>, A>,
    earlier: Map<Seq<char>, A>,
    later: Map<Seq<char>, A>,
    key: Seq<char>,
)
    ensures
        ({
            let after = registered.union_prefer_right(earlier).union_prefer_right(later);
            &&& later.contains_key(key) ==> after.contains_key(key) && after[key] == later[key]
            &&& !later.contains_key(key) && earlier.contains_key(key) ==> after.contains_key(key)
                && after[key] == earlier[key]
            &&& !later.contains_key(key) && !earlier.contains_key(key) ==> after.contains_key(key)
                == registered.contains_key(key) && (registered.contains_key(key) ==> after[key]
                == registered[key])
        }),
{
}

/// Files added for one collection type in one loading state are listed in
/// the order in which they were added.
pub proof fn law_files_keep_their_order<S, C>(
    files: Map<S, Map<C, Seq<Seq<char>>>>,
    state: S,
    collection: C,
    first: Seq<char>,
    second: Seq<char>,
)
    ensures
        listed_files(
            state_files(
                files_after_adding(
                    files_after_adding(files, state, collection, first),
                    state,
                    collection,
                    second,
                ),
                state,
            ),
            collection,
        ) == listed_files(state_files(files, state), collection).push(first).push(second),
{
}

/// Adding a file for one collection type in one loading state leaves the
/// files of every other state, and of every other type, as they were.
pub proof fn law_adding_a_file_keeps_other_lists<S, C>(
    files: Map<S, Map<C, Seq<Seq<char>>>>,
    state: S,
    collection: C,
    file: Seq<char>,
    other_state: S,
    other_collection: C,
)
    requires
        other_state != state || other_collection != collection,
    ensures
        listed_files(
            state_files(files_after_adding(files, state, collection, file), other_state),
            other_collection,
        ) == listed_files(state_files(files, other_state), other_collection),
{
}

} // verus!
