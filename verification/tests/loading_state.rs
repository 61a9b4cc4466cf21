use bevy_asset_loader::dynamic_asset::{DynamicAssetCollections, DynamicAssetMap, DynamicAssets};
use bevy_asset_loader::loading_state::{
    AssetLoaderConfiguration, InternalLoadingState, InternalLoadingStateSet, LoadingAssetHandles,
    LoadingConfiguration, LoadingState,
};
use std::any::TypeId;

const LOADING: u32 = 0;
const MENU: u32 = 1;
const ERROR: u32 = 2;
const OTHER: u32 = 3;

struct AudioCollection;
struct ImageCollection;

fn build(
    state: LoadingState<u32, &'static str>,
    configuration: &mut AssetLoaderConfiguration<u32>,
    assets: &mut DynamicAssets<&'static str>,
) -> Vec<&'static str> {
    state.build(configuration, assets)
}

fn assets_of(pairs: &[(&str, &'static str)]) -> DynamicAssetMap<&'static str> {
    let mut map = DynamicAssetMap::new();
    for (k, v) in pairs {
        map.insert(k.to_string(), *v);
    }
    map
}

#[test]
fn new_loading_state_configures_nothing_to_continue_to() {
    let mut configuration = AssetLoaderConfiguration::default();
    let mut assets = DynamicAssets::new();
    let state: LoadingState<u32, &'static str> = LoadingState::new(LOADING);
    assert_eq!(*state.loading_state(), LOADING);
    let endings = build(state, &mut configuration, &mut assets);
    assert_eq!(endings, vec!["assets"]);
    let config = configuration.state_configurations.get(&LOADING).unwrap();
    assert_eq!(config.next, None);
    assert_eq!(config.failure, None);
    assert!(!config.loading_failed);
    assert_eq!(config.loading_collections, 0);
    assert!(config.loading_dynamic_collections.is_empty());
    assert_eq!(configuration.state_configurations.len(), 1);
    assert!(assets.get_asset("anything").is_none());
}

#[test]
fn continue_to_state_is_configured_on_build() {
    let mut configuration = AssetLoaderConfiguration::default();
    let mut assets = DynamicAssets::new();
    build(LoadingState::new(LOADING).continue_to_state(MENU), &mut configuration, &mut assets);
    let config = configuration.state_configurations.get(&LOADING).unwrap();
    assert_eq!(config.next, Some(MENU));
    assert_eq!(config.failure, None);
}

#[test]
fn failure_state_is_configured_on_build() {
    let mut configuration = AssetLoaderConfiguration::default();
    let mut assets = DynamicAssets::new();
    build(
        LoadingState::new(LOADING).continue_to_state(MENU).on_failure_continue_to_state(ERROR),
        &mut configuration,
        &mut assets,
    );
    let config = configuration.state_configurations.get(&LOADING).unwrap();
    assert_eq!(config.next, Some(MENU));
    assert_eq!(config.failure, Some(ERROR));
}

#[test]
fn later_continue_to_state_replaces_earlier_one() {
    let mut configuration = AssetLoaderConfiguration::default();
    let mut assets = DynamicAssets::new();
    build(
        LoadingState::new(LOADING).continue_to_state(MENU).continue_to_state(OTHER),
        &mut configuration,
        &mut assets,
    );
    assert_eq!(configuration.state_configurations.get(&LOADING).unwrap().next, Some(OTHER));
}

#[test]
fn building_without_next_keeps_configured_next() {
    let mut configuration = AssetLoaderConfiguration::default();
    let mut assets = DynamicAssets::new();
    build(
        LoadingState::new(LOADING).continue_to_state(MENU).on_failure_continue_to_state(ERROR),
        &mut configuration,
        &mut assets,
    );
    build(LoadingState::new(LOADING), &mut configuration, &mut assets);
    let config = configuration.state_configurations.get(&LOADING).unwrap();
    assert_eq!(config.next, Some(MENU));
    assert_eq!(config.failure, Some(ERROR));
}

#[test]
fn building_with_new_next_replaces_configured_next() {
    let mut configuration = AssetLoaderConfiguration::default();
    let mut assets = DynamicAssets::new();
    build(LoadingState::new(LOADING).continue_to_state(MENU), &mut configuration, &mut assets);
    build(LoadingState::new(LOADING).continue_to_state(OTHER), &mut configuration, &mut assets);
    assert_eq!(configuration.state_configurations.get(&LOADING).unwrap().next, Some(OTHER));
}

#[test]
fn building_keeps_loading_progress() {
    let mut configuration = AssetLoaderConfiguration::default();
    let mut progress: LoadingConfiguration<u32> = LoadingConfiguration::default();
    progress.loading_failed = true;
    progress.loading_collections = 4;
    progress.loading_dynamic_collections.insert(TypeId::of::<AudioCollection>());
    configuration.state_configurations.insert(LOADING, progress);
    let mut assets = DynamicAssets::new();
    build(LoadingState::new(LOADING).continue_to_state(MENU), &mut configuration, &mut assets);
    let config = configuration.state_configurations.get(&LOADING).unwrap();
    assert!(config.loading_failed);
    assert_eq!(config.loading_collections, 4);
    assert!(config.loading_dynamic_collections.contains(&TypeId::of::<AudioCollection>()));
    assert_eq!(config.next, Some(MENU));
}

#[test]
fn building_keeps_other_states() {
    let mut configuration = AssetLoaderConfiguration::default();
    let mut assets = DynamicAssets::new();
    build(LoadingState::new(OTHER).continue_to_state(ERROR), &mut configuration, &mut assets);
    build(LoadingState::new(LOADING).continue_to_state(MENU), &mut configuration, &mut assets);
    assert_eq!(configuration.state_configurations.get(&OTHER).unwrap().next, Some(ERROR));
    assert_eq!(configuration.state_configurations.get(&LOADING).unwrap().next, Some(MENU));
    assert_eq!(configuration.state_configurations.len(), 2);
}

#[test]
fn building_twice_is_building_once() {
    let mut once = AssetLoaderConfiguration::default();
    let mut twice = AssetLoaderConfiguration::default();
    let mut assets = DynamicAssets::new();
    build(LoadingState::new(LOADING).continue_to_state(MENU), &mut once, &mut assets);
    build(LoadingState::new(LOADING).continue_to_state(MENU), &mut twice, &mut assets);
    build(LoadingState::new(LOADING).continue_to_state(MENU), &mut twice, &mut assets);
    assert_eq!(once.state_configurations.len(), twice.state_configurations.len());
    assert_eq!(
        once.state_configurations.get(&LOADING).unwrap().next,
        twice.state_configurations.get(&LOADING).unwrap().next
    );
}

#[test]
fn builds_of_different_states_commute() {
    let mut first = AssetLoaderConfiguration::default();
    let mut second = AssetLoaderConfiguration::default();
    let mut assets = DynamicAssets::new();
    build(LoadingState::new(LOADING).continue_to_state(MENU), &mut first, &mut assets);
    build(LoadingState::new(OTHER).continue_to_state(ERROR), &mut first, &mut assets);
    build(LoadingState::new(OTHER).continue_to_state(ERROR), &mut second, &mut assets);
    build(LoadingState::new(LOADING).continue_to_state(MENU), &mut second, &mut assets);
    for state in [LOADING, OTHER] {
        assert_eq!(
            first.state_configurations.get(&state).unwrap().next,
            second.state_configurations.get(&state).unwrap().next
        );
    }
}

#[test]
fn dynamic_assets_are_registered_on_build() {
    let mut configuration = AssetLoaderConfiguration::default();
    let mut assets = DynamicAssets::new();
    assets.register_asset("kept".to_string(), "old kept");
    assets.register_asset("image".to_string(), "old image");
    let state = LoadingState::new(LOADING)
        .add_standard_dynamic_assets(assets_of(&[("image", "images/player.png"), ("audio", "audio/bg.ogg")]));
    build(state, &mut configuration, &mut assets);
    assert_eq!(assets.get_asset("image"), Some(&"images/player.png"));
    assert_eq!(assets.get_asset("audio"), Some(&"audio/bg.ogg"));
    assert_eq!(assets.get_asset("kept"), Some(&"old kept"));
    assert_eq!(assets.get_asset("missing"), None);
}

#[test]
fn later_dynamic_assets_replace_earlier_ones() {
    let mut configuration = AssetLoaderConfiguration::default();
    let mut assets = DynamicAssets::new();
    let state = LoadingState::new(LOADING)
        .add_standard_dynamic_assets(assets_of(&[("image", "first.png"), ("tree", "tree.png")]))
        .add_standard_dynamic_assets(assets_of(&[("image", "second.png")]));
    build(state, &mut configuration, &mut assets);
    assert_eq!(assets.get_asset("image"), Some(&"second.png"));
    assert_eq!(assets.get_asset("tree"), Some(&"tree.png"));
}

#[test]
fn register_asset_replaces_asset_under_same_key() {
    let mut assets = DynamicAssets::new();
    assets.register_asset("key".to_string(), 1u8);
    assets.register_asset("key".to_string(), 2u8);
    assert_eq!(assets.get_asset("key"), Some(&2u8));
}

#[test]
fn register_assets_merges_preferring_new_entries() {
    let mut assets = DynamicAssets::new();
    assets.register_asset("a".to_string(), 1u8);
    assets.register_asset("b".to_string(), 2u8);
    let mut new_entries = DynamicAssetMap::new();
    new_entries.insert("b".to_string(), 20u8);
    new_entries.insert("c".to_string(), 30u8);
    assets.register_assets(new_entries);
    assert_eq!(assets.get_asset("a"), Some(&1u8));
    assert_eq!(assets.get_asset("b"), Some(&20u8));
    assert_eq!(assets.get_asset("c"), Some(&30u8));
}

#[test]
fn file_endings_can_be_set() {
    let mut configuration = AssetLoaderConfiguration::default();
    let mut assets = DynamicAssets::new();
    let state = LoadingState::new(LOADING)
        .set_standard_dynamic_asset_collection_file_endings(vec!["game.ron", "level.ron"]);
    let endings = build(state, &mut configuration, &mut assets);
    assert_eq!(endings, vec!["game.ron", "level.ron"]);
}

#[test]
fn empty_file_endings_are_kept() {
    let mut configuration = AssetLoaderConfiguration::default();
    let mut assets = DynamicAssets::new();
    let state = LoadingState::new(LOADING).set_standard_dynamic_asset_collection_file_endings(vec![]);
    let endings = build(state, &mut configuration, &mut assets);
    assert!(endings.is_empty());
}

#[test]
fn dynamic_collection_files_keep_their_order() {
    let mut collections: DynamicAssetCollections<u32, TypeId> = DynamicAssetCollections::new();
    let audio = TypeId::of::<AudioCollection>();
    collections.add_dynamic_collection_to_loading_state(LOADING, audio, "first.assets");
    collections.add_dynamic_collection_to_loading_state(LOADING, audio, "second.assets");
    let files = collections.files.get(&LOADING).unwrap().get(&audio).unwrap();
    assert_eq!(files, &vec!["first.assets".to_string(), "second.assets".to_string()]);
}

#[test]
fn dynamic_collection_files_are_kept_apart() {
    let mut collections: DynamicAssetCollections<u32, TypeId> = DynamicAssetCollections::new();
    let audio = TypeId::of::<AudioCollection>();
    let image = TypeId::of::<ImageCollection>();
    collections.add_dynamic_collection_to_loading_state(LOADING, audio, "audio.assets");
    collections.add_dynamic_collection_to_loading_state(LOADING, image, "image.assets");
    collections.add_dynamic_collection_to_loading_state(OTHER, audio, "other.assets");
    let loading = collections.files.get(&LOADING).unwrap();
    assert_eq!(loading.get(&audio).unwrap(), &vec!["audio.assets".to_string()]);
    assert_eq!(loading.get(&image).unwrap(), &vec!["image.assets".to_string()]);
    let other = collections.files.get(&OTHER).unwrap();
    assert_eq!(other.get(&audio).unwrap(), &vec!["other.assets".to_string()]);
    assert!(other.get(&image).is_none());
    assert_eq!(collections.files.len(), 2);
}

#[test]
fn internal_loading_state_starts_at_initialize() {
    assert_eq!(InternalLoadingState::default(), InternalLoadingState::Initialize);
}

#[test]
fn internal_sets_run_in_their_phases() {
    assert_eq!(InternalLoadingStateSet::Initialize.runs_in(), Some(InternalLoadingState::Initialize));
    assert_eq!(
        InternalLoadingStateSet::CheckDynamicAssetCollections.runs_in(),
        Some(InternalLoadingState::LoadingDynamicAssetCollections)
    );
    assert_eq!(
        InternalLoadingStateSet::ResumeDynamicAssetCollections.runs_in(),
        Some(InternalLoadingState::LoadingDynamicAssetCollections)
    );
    assert_eq!(InternalLoadingStateSet::CheckAssets.runs_in(), Some(InternalLoadingState::LoadingAssets));
    assert_eq!(InternalLoadingStateSet::Finalize.runs_in(), Some(InternalLoadingState::Finalize));
    assert_eq!(InternalLoadingStateSet::Done.runs_in(), None);
}

#[test]
fn loading_asset_handles_start_empty() {
    let handles: LoadingAssetHandles<AudioCollection> = LoadingAssetHandles::default();
    assert!(handles.handles.is_empty());
}

#[test]
fn default_configuration_is_empty() {
    let configuration: AssetLoaderConfiguration<u32> = AssetLoaderConfiguration::default();
    assert!(configuration.state_configurations.is_empty());
    let collections: DynamicAssetCollections<u32, TypeId> = DynamicAssetCollections::new();
    assert!(collections.files.is_empty());
}

#[test]
fn dynamic_asset_map_keeps_one_asset_per_key() {
    let mut map = DynamicAssetMap::new();
    assert_eq!(map.len(), 0);
    map.insert("a".to_string(), 1u8);
    map.insert("b".to_string(), 2u8);
    map.insert("a".to_string(), 3u8);
    assert_eq!(map.len(), 2);
    assert_eq!(map.get("a"), Some(&3u8));
    assert_eq!(map.get("b"), Some(&2u8));
    assert_eq!(map.get("c"), None);
}

#[test]
fn extending_a_dynamic_asset_map_prefers_new_assets() {
    let mut map = DynamicAssetMap::new();
    map.insert("a".to_string(), 1u8);
    map.insert("b".to_string(), 2u8);
    let mut other = DynamicAssetMap::new();
    other.insert("b".to_string(), 20u8);
    other.insert("c".to_string(), 30u8);
    map.extend(other);
    assert_eq!(map.len(), 3);
    assert_eq!(map.get("a"), Some(&1u8));
    assert_eq!(map.get("b"), Some(&20u8));
    assert_eq!(map.get("c"), Some(&30u8));
}
