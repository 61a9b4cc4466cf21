# bevy_asset_loader

The configuration logic of Bevy loading states, verified with Verus.

- `src/loading_state.rs`: the `LoadingState` builder (the state to load in,
  the states to continue to, dynamic assets, file endings), the per-state
  `LoadingConfiguration` that an app keeps, and `build`, which merges a
  loading state into those configurations and registers its dynamic assets.
- `src/dynamic_asset.rs`: the map of asset keys to dynamic assets, the
  registry of dynamic assets, and the files of dynamic asset collections per
  loading state and collection type.
- `src/laws.rs`: properties across these operations (a built loading state
  configures its next and failure states, other states are untouched,
  building is idempotent, later assets win, files keep their order).
- `app/`: the Bevy side: resources, schedule labels and system sets, and the
  `LoadingStateAppExt` extension of `App`.
