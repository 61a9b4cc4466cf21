//! A loading state: the state during which asset collections are loaded,
//! the states to continue to afterwards, and the dynamic assets to register.

use crate::dynamic_asset::{DynamicAssetMap, DynamicAssets};
use std::any::TypeId;
use std::collections::{HashMap, HashSet};
use std::hash::Hash;
use std::marker::PhantomData;
use vstd::prelude::*;
use vstd::std_specs::hash::obeys_key_model;

verus! {

/// `std::any::TypeId`, the identifier of a dynamic asset collection type,
/// carried through opaquely.
#[verifier::external_type_specification]
#[verifier::external_body]
pub struct ExTypeId(TypeId);

/// The system sets that the systems of a loading state run in.
#[derive(Debug, Clone, Copy, PartialEq, Eq, Hash)]
pub enum InternalLoadingStateSet {
    Initialize,
    CheckDynamicAssetCollections,
    ResumeDynamicAssetCollections,
    CheckAssets,
    Finalize,
    Done,
}

/// The phases that a loading state goes through.
#[derive(Debug, Clone, Copy, PartialEq, Eq, Hash)]
pub enum InternalLoadingState {
    /// Starting point. Here it will be decided whether or not dynamic asset
    /// collections need to be loaded.
    Initialize,
    /// Load dynamic asset collections and configure their key <-> asset mapping.
    LoadingDynamicAssetCollections,
    /// Load the actual asset collections and check their status every frame.
    LoadingAssets,
    /// All collections are loaded and inserted.
    Finalize,
    /// A 'parking' state in case no next state is defined.
    Done,
}

impl Default for InternalLoadingState {
    fn default() -> (phase: Self)
        ensures
            phase == InternalLoadingState::Initialize,
    {
        InternalLoadingState::Initialize
    }
}

impl InternalLoadingStateSet {
    /// The phase in which the systems of this set run; the systems of
    /// `Done` are not bound to a phase.
    pub fn runs_in(&self) -> (phase: Option<InternalLoadingState>)
        ensures
            phase == match *self {
                InternalLoadingStateSet::Initialize => Some(InternalLoadingState::Initialize),
                InternalLoadingStateSet::CheckDynamicAssetCollections => Some(
                    InternalLoadingState::LoadingDynamicAssetCollections,
                ),
                InternalLoadingStateSet::ResumeDynamicAssetCollections => Some(
                    InternalLoadingState::LoadingDynamicAssetCollections,
                ),
                InternalLoadingStateSet::CheckAssets => Some(InternalLoadingState::LoadingAssets),
                InternalLoadingStateSet::Finalize => Some(InternalLoadingState::Finalize),
                InternalLoadingStateSet::Done => None,
            },
    {
        match self {
            InternalLoadingStateSet::Initialize => Some(InternalLoadingState::Initialize),
            InternalLoadingStateSet::CheckDynamicAssetCollections => Some(
                InternalLoadingState::LoadingDynamicAssetCollections,
            ),
            InternalLoadingStateSet::ResumeDynamicAssetCollections => Some(
                InternalLoadingState::LoadingDynamicAssetCollections,
            ),
            InternalLoadingStateSet::CheckAssets => Some(InternalLoadingState::LoadingAssets),
            InternalLoadingStateSet::Finalize => Some(InternalLoadingState::Finalize),
            InternalLoadingStateSet::Done => None,
        }
    }
}

/// The set that the systems of the loading state `S` run in, between the
/// state transitions and the update of each frame.
pub struct LoadingStateSet<S>(pub S);

/// The configuration that the app keeps for one loading state.
pub struct LoadingConfiguration<S> {
    pub next: Option<S>,
    pub failure: Option<S>,
    pub loading_failed: bool,
    pub loading_collections: usize,
    pub loading_dynamic_collections: HashSet<TypeId>,
}

/// The abstract value of a [`LoadingConfiguration`].
pub struct LoadingConfigurationView<S> {
    pub next: Option<S>,
    pub failure: Option<S>,
    pub loading_failed: bool,
    pub loading_collections: nat,
    pub loading_dynamic_collections: Set<TypeId>,
}

/// A configuration before any loading: no next state, no failure state,
/// nothing failed and nothing loading.
pub open spec fn initial_configuration<S>() -> LoadingConfigurationView<S> {
    LoadingConfigurationView {
        next: None,
        failure: None,
        loading_failed: false,
        loading_collections: 0,
        loading_dynamic_collections: Set::empty(),
    }
}

impl<S> View for LoadingConfiguration<S> {
    type V = LoadingConfigurationView<S>;

    open spec fn view(&self) -> LoadingConfigurationView<S> {
        LoadingConfigurationView {
            next: self.next,
            failure: self.failure,
            loading_failed: self.loading_failed,
            loading_collections: self.loading_collections as nat,
            loading_dynamic_collections: self.loading_dynamic_collections@,
        }
    }
}

impl<S> Default for LoadingConfiguration<S> {
    fn default() -> (configuration: Self)
        ensures
            configuration@ == initial_configuration::<S>(),
    {
        LoadingConfiguration {
            next: None,
            failure: None,
            loading_failed: false,
            loading_collections: 0,
            loading_dynamic_collections: HashSet::new(),
        }
    }
}

/// The configurations of all loading states of an app.
pub struct AssetLoaderConfiguration<S> {
    pub state_configurations: HashMap<S, LoadingConfiguration<S>>,
}

impl<S> View for AssetLoaderConfiguration<S> {
    type V = Map<S, LoadingConfigurationView<S>>;

    open spec fn view(&self) -> Map<S, LoadingConfigurationView<S>> {
        self.state_configurations@.map_values(|c: LoadingConfiguration<S>| c@)
    }
}

impl<S> Default for AssetLoaderConfiguration<S> {
    fn default() -> (configuration: Self)
        ensures
            configuration@ == Map::<S, LoadingConfigurationView<S>>::empty(),
    {
        let configuration = AssetLoaderConfiguration { state_configurations: HashMap::new() };
        assert(configuration@ =~= Map::<S, LoadingConfigurationView<S>>::empty());
        configuration
    }
}

/// The asset handles that are loading for the collection type `T`.
pub struct LoadingAssetHandles<T> {
    pub handles: Vec<bevy::asset::HandleUntyped>,
    pub marker: PhantomData<T>,
}

impl<T> Default for LoadingAssetHandles<T> {
    fn default() -> (loading: Self)
        ensures
            loading.handles@.len() == 0,
    {
        LoadingAssetHandles { handles: Vec::new(), marker: PhantomData }
    }
}

/// `bevy::asset::HandleUntyped`, a handle to an asset of any type, carried
/// through opaquely.
#[verifier::external_type_specification]
#[verifier::external_body]
pub struct ExHandleUntyped(bevy::asset::HandleUntyped);

/// A loading state: asset collections are loaded while the app is in
/// `loading_state`; afterwards the app continues to `next_state`, or to
/// `failure_state` if an asset fails to load. The dynamic assets are
/// registered when the loading state is built.
pub struct LoadingState<S, A> {
    next_state: Option<S>,
    failure_state: Option<S>,
    loading_state: S,
    dynamic_assets: DynamicAssetMap<A>,
    dynamic_asset_collections: HashMap<TypeId, Vec<String>>,
    standard_dynamic_asset_collection_file_endings: Vec<&'static str>,
}

/// The abstract value of a [`LoadingState`].
pub struct LoadingStateView<S, A> {
    pub next_state: Option<S>,
    pub failure_state: Option<S>,
    pub loading_state: S,
    pub dynamic_assets: Map<Seq<char>, A>,
    pub dynamic_asset_collections: Map<TypeId, Seq<Seq<char>>>,
    pub file_endings: Seq<Seq<char>>,
}

/// The texts of a list of file endings.
pub open spec fn ending_texts(endings: Seq<&'static str>) -> Seq<Seq<char>> {
    endings.map_values(|e: &'static str| e@)
}

/// The file ending of standard dynamic asset collection files when none
/// is set.
pub open spec fn default_file_ending() -> Seq<char> {
    seq!['a', 's', 's', 'e', 't', 's']
}

impl<S, A> View for LoadingState<S, A> {
    type V = LoadingStateView<S, A>;

    closed spec fn view(&self) -> LoadingStateView<S, A> {
        LoadingStateView {
            next_state: self.next_state,
            failure_state: self.failure_state,
            loading_state: self.loading_state,
            dynamic_assets: self.dynamic_assets@,
            dynamic_asset_collections: self.dynamic_asset_collections@.map_values(
                |v: Vec<String>| v@.map_values(|f: String| f@),
            ),
            file_endings: ending_texts(self.standard_dynamic_asset_collection_file_endings@),
        }
    }
}

impl<S, A> LoadingState<S, A> {
    /// Creates a loading state during which all asset collections will be
    /// loaded and inserted as resources. It continues to no state, has no
    /// dynamic assets and the default file ending.
    pub fn new(load: S) -> (state: LoadingState<S, A>)
        ensures
            state@.loading_state == load,
            state@.next_state is None,
            state@.failure_state is None,
            state@.dynamic_assets == Map::<Seq<char>, A>::empty(),
            state@.dynamic_asset_collections == Map::<TypeId, Seq<Seq<char>>>::empty(),
            state@.file_endings == seq![default_file_ending()],
    {
        let endings: Vec<&'static str> = vec!["assets"];
        proof {
            reveal_strlit("assets");
            assert(endings@.len() == 1);
            assert(endings@[0]@ =~= default_file_ending());
        }
        let state = LoadingState {
            next_state: None,
            failure_state: None,
            loading_state: load,
            dynamic_assets: DynamicAssetMap::new(),
            dynamic_asset_collections: HashMap::new(),
            standard_dynamic_asset_collection_file_endings: endings,
        };
        proof {
            assert(state@.dynamic_asset_collections =~= Map::<TypeId, Seq<Seq<char>>>::empty());
            assert(state@.file_endings =~= seq![default_file_ending()]);
        }
        state
    }

    /// The state during which the asset collections are loaded.
    pub fn loading_state(&self) -> (state: &S)
        ensures
            *state == self@.loading_state,
    {
        &self.loading_state
    }

    /// The app will continue to `next` after all asset collections are
    /// loaded and inserted as resources.
    pub fn continue_to_state(self, next: S) -> (state: Self)
        ensures
            state@ == (LoadingStateView { next_state: Some(next), ..self@ }),
    {
        let mut state = self;
        state.next_state = Some(next);
        state
    }

    /// The app will continue to `next` if an asset fails to load.
    pub fn on_failure_continue_to_state(self, next: S) -> (state: Self)
        ensures
            state@ == (LoadingStateView { failure_state: Some(next), ..self@ }),
    {
        let mut state = self;
        state.failure_state = Some(next);
        state
    }

    /// Adds dynamic assets by their keys; an asset replaces one added before
    /// under the same key.
    pub fn add_standard_dynamic_assets(self, dynamic_assets: DynamicAssetMap<A>) -> (state: Self)
        ensures
            state@ == (LoadingStateView {
                dynamic_assets: self@.dynamic_assets.union_prefer_right(dynamic_assets@),
                ..self@
            }),
    {
        let mut state = self;
        state.dynamic_assets.extend(dynamic_assets);
        state
    }

    /// Sets the file endings of the files that are loaded as standard
    /// dynamic asset collections.
    pub fn set_standard_dynamic_asset_collection_file_endings(
        self,
        endings: Vec<&'static str>,
    ) -> (state: Self)
        ensures
            state@ == (LoadingStateView { file_endings: ending_texts(endings@), ..self@ }),
    {
        let mut state = self;
        state.standard_dynamic_asset_collection_file_endings = endings;
        state
    }
}

/// The configuration that `previous` becomes when a loading state with the
/// given next and failure states is built: a given state replaces the
/// configured one, a missing one keeps it; the rest stays as it was.
pub open spec fn merged_configuration<S>(
    previous: LoadingConfigurationView<S>,
    next: Option<S>,
    failure: Option<S>,
) -> LoadingConfigurationView<S> {
    LoadingConfigurationView {
        next: if next is Some { next } else { previous.next },
        failure: if failure is Some { failure } else { previous.failure },
        ..previous
    }
}

/// The configuration of `state` in `configurations`; a state without one
/// has the initial configuration.
pub open spec fn configuration_of<S>(
    configurations: Map<S, LoadingConfigurationView<S>>,
    state: S,
) -> LoadingConfigurationView<S> {
    if configurations.contains_key(state) {
        configurations[state]
    } else {
        initial_configuration()
    }
}

/// The configurations of an app after `loading` is built in it: only the
/// configuration of its loading state changes.
pub open spec fn configurations_after_build<S, A>(
    configurations: Map<S, LoadingConfigurationView<S>>,
    loading: LoadingStateView<S, A>,
) -> Map<S, LoadingConfigurationView<S>> {
    configurations.insert(
        loading.loading_state,
        merged_configuration(
            configuration_of(configurations, loading.loading_state),
            loading.next_state,
            loading.failure_state,
        ),
    )
}

impl<S: Eq + Hash, A> LoadingState<S, A> {
    /// Finishes configuring the loading state: its next and failure states
    /// go into the configuration of its loading state, where they replace
    /// the ones configured before; its dynamic assets are registered, each
    /// replacing an asset registered before under the same key. Returns
    /// the file endings of standard dynamic asset collection files, for the
    /// loader of those files.
    pub fn build(
        self,
        configuration: &mut AssetLoaderConfiguration<S>,
        dynamic_assets: &mut DynamicAssets<A>,
    ) -> (endings: Vec<&'static str>)
        requires
            obeys_key_model::<S>(),
        ensures
            final(configuration)@ == configurations_after_build(old(configuration)@, self@),
            final(dynamic_assets)@ == old(dynamic_assets)@.union_prefer_right(self@.dynamic_assets),
            ending_texts(endings@) == self@.file_endings,
    {
        let ghost before = configuration@;
        let ghost loading = self@;
        let LoadingState {
            next_state,
            failure_state,
            loading_state,
            dynamic_assets: assets,
            dynamic_asset_collections: _,
            standard_dynamic_asset_collection_file_endings: endings,
        } = self;
        let mut loading_config = match configuration.state_configurations.remove(&loading_state) {
            Some(c) => c,
            None => LoadingConfiguration::default(),
        };
        assert(loading_config@ == configuration_of(before, loading_state));
        if next_state.is_some() {
            loading_config.next = next_state;
        }
        if failure_state.is_some() {
            loading_config.failure = failure_state;
        }
        configuration.state_configurations.insert(loading_state, loading_config);
        assert(configuration@ =~= configurations_after_build(before, loading));
        dynamic_assets.register_assets(assets);
        endings
    }
}

} // verus!
