//! Features of assets, and their byte format. Numbers that are not whole stand as the bits of
//! doubles.
use crate::bytes::{push_u32_le, push_u64_le, read_u32_le, read_u64_le};
use crate::doubles::ZERO;
use crate::feat_eng::cross_sectional::{
    AssetFigures, AssetId, CrossSectionalConfig, CrossSectionalRanker, FeatureExtractor,
    StatsUpdate,
};
use crate::feat_eng::temporal::{TemporalAttentionConfig, TemporalAttentionExtractor};
use vstd::prelude::*;

verus! {

/// Number of features that are written for each asset
pub const FEATURE_COUNT: usize = 12;

/// Configuration for the feature engineering module
#[derive(Debug, Clone, Copy, PartialEq, Eq, Structural)]
pub struct FeatureEngineConfig {
    pub cross_sectional_config: CrossSectionalConfig,
    pub temporal_config: TemporalAttentionConfig,
    /// Maximum number of assets to watch
    pub max_assets: usize,
    /// Enable IPC serialization
    pub enable_ipc_serialization: bool,
}

impl Default for FeatureEngineConfig {
    fn default() -> (c: Self)
        ensures
            c == (FeatureEngineConfig {
                cross_sectional_config: CrossSectionalConfig {
                    momentum_lookback: 100,
                    mean_reversion_lookback: 50,
                    min_assets: 3,
                },
                temporal_config: TemporalAttentionConfig {
                    max_sequence_length: 1000,
                    decay_factor: crate::feat_eng::temporal::USUAL_DECAY,
                    num_time_scales: 4,
                },
                max_assets: 100,
                enable_ipc_serialization: true,
            }),
    {
        Self {
            cross_sectional_config: CrossSectionalConfig::default(),
            temporal_config: TemporalAttentionConfig::default(),
            max_assets: 100,
            enable_ipc_serialization: true,
        }
    }
}

/// Combined feature set for a single asset
#[derive(Debug)]
pub struct AssetFeatures {
    pub asset_id: u32,
    /// Cross-sectional momentum rank (0 to 1)
    pub momentum_rank: u64,
    /// Cross-sectional mean-reversion rank (0 to 1)
    pub mr_rank: u64,
    /// Momentum z-score
    pub momentum_z: u64,
    /// Mean-reversion z-score
    pub mr_z: u64,
    /// Volatility
    pub volatility: u64,
    /// Recent return
    pub recent_return: u64,
    /// Temporal attention price
    pub attention_price: u64,
    /// Temporal attention volume
    pub attention_volume: u64,
    /// Multi-scale attention features
    pub multi_scale_features: Vec<u64>,
}

/// Features, with those of the scales as a sequence.
#[verifier::ext_equal]
pub struct FeaturesView {
    pub asset_id: u32,
    pub momentum_rank: u64,
    pub mr_rank: u64,
    pub momentum_z: u64,
    pub mr_z: u64,
    pub volatility: u64,
    pub recent_return: u64,
    pub attention_price: u64,
    pub attention_volume: u64,
    pub multi_scale_features: Seq<u64>,
}

impl View for AssetFeatures {
    type V = FeaturesView;

    open spec fn view(&self) -> FeaturesView {
        FeaturesView {
            asset_id: self.asset_id,
            momentum_rank: self.momentum_rank,
            mr_rank: self.mr_rank,
            momentum_z: self.momentum_z,
            mr_z: self.mr_z,
            volatility: self.volatility,
            recent_return: self.recent_return,
            attention_price: self.attention_price,
            attention_volume: self.attention_volume,
            multi_scale_features: self.multi_scale_features@,
        }
    }
}

impl FeaturesView {
    /// The features one after the other, those of the scales last.
    pub open spec fn vector(self) -> Seq<u64> {
        seq![
            self.momentum_rank,
            self.mr_rank,
            self.momentum_z,
            self.mr_z,
            self.volatility,
            self.recent_return,
            self.attention_price,
            self.attention_volume,
        ] + self.multi_scale_features
    }

    /// The features of an asset without a number, from at least eight values.
    pub open spec fn from_values(values: Seq<u64>) -> FeaturesView {
        FeaturesView {
            asset_id: 0,
            momentum_rank: values[0],
            mr_rank: values[1],
            momentum_z: values[2],
            mr_z: values[3],
            volatility: values[4],
            recent_return: values[5],
            attention_price: values[6],
            attention_volume: values[7],
            multi_scale_features: values.skip(8),
        }
    }
}

/// The value at a place; zero where there is none.
pub open spec fn value_at(values: Seq<u64>, i: int) -> u64 {
    if 0 <= i < values.len() {
        values[i]
    } else {
        0
    }
}

/// The values that are written of an asset: its first twelve, and zeros where there are fewer.
pub open spec fn row(f: FeaturesView) -> Seq<u64> {
    Seq::new(FEATURE_COUNT as nat, |i: int| value_at(f.vector(), i))
}

/// Features as they are.
pub open spec fn views(features: Seq<AssetFeatures>) -> Seq<FeaturesView> {
    features.map_values(|f: AssetFeatures| f@)
}

/// The values of assets one after the other.
pub open spec fn rows(features: Seq<FeaturesView>) -> Seq<u64> {
    Seq::new(features.len() * 12, |j: int| row(features[j / 12])[j % 12])
}

/// The bytes of features: the number of assets, the number of features of each, and the values.
pub open spec fn features_bytes(features: Seq<FeaturesView>) -> Seq<u8> {
    crate::bytes::le_bytes(features.len(), 4) + crate::bytes::le_bytes(12, 4)
        + crate::feat_eng::temporal::words(rows(features))
}

/// The number of assets that bytes announce.
pub open spec fn assets_in(bytes: Seq<u8>) -> nat {
    crate::feat_eng::temporal::half_at(bytes, 0)
}

/// The number of features of each asset that bytes announce.
pub open spec fn width_in(bytes: Seq<u8>) -> nat {
    crate::feat_eng::temporal::half_at(bytes, 4)
}

/// True where bytes hold all the values that they announce.
pub open spec fn holds_values(bytes: Seq<u8>) -> bool {
    bytes.len() >= 8 && bytes.len() >= 8 + assets_in(bytes) * width_in(bytes) * 8
}

/// True where the values of an asset are enough for its features, or there are none.
pub open spec fn usable(bytes: Seq<u8>) -> bool {
    holds_values(bytes) && assets_in(bytes) > 0 ==> width_in(bytes) == 0 || width_in(bytes) >= 8
}

/// The features that bytes hold.
pub open spec fn features_in(bytes: Seq<u8>) -> Seq<FeaturesView> {
    let width = width_in(bytes);
    Seq::new(
        if width == 0 {
            0
        } else {
            assets_in(bytes)
        },
        |i: int|
            FeaturesView::from_values(
                crate::feat_eng::temporal::words_at(bytes, 8 + 8 * (i * width), width),
            ),
    )
}

impl AssetFeatures {
    pub fn new(asset_id: u32) -> (f: Self)
        ensures
            f@ == (FeaturesView {
                asset_id,
                momentum_rank: 0,
                mr_rank: 0,
                momentum_z: 0,
                mr_z: 0,
                volatility: 0,
                recent_return: 0,
                attention_price: 0,
                attention_volume: 0,
                multi_scale_features: Seq::empty(),
            }),
    {
        Self {
            asset_id,
            momentum_rank: 0,
            mr_rank: 0,
            momentum_z: 0,
            mr_z: 0,
            volatility: 0,
            recent_return: 0,
            attention_price: 0,
            attention_volume: 0,
            multi_scale_features: Vec::new(),
        }
    }

    /// Convert to flat vector for ML consumption
    pub fn to_vector(&self) -> (r: Vec<u64>)
        ensures
            r@ == self@.vector(),
    {
        let mut r: Vec<u64> = Vec::new();
        r.push(self.momentum_rank);
        r.push(self.mr_rank);
        r.push(self.momentum_z);
        r.push(self.mr_z);
        r.push(self.volatility);
        r.push(self.recent_return);
        r.push(self.attention_price);
        r.push(self.attention_volume);
        let ghost scales = self.multi_scale_features@;
        let mut i: usize = 0;
        while i < self.multi_scale_features.len()
            invariant
                i <= self.multi_scale_features@.len(),
                scales == self.multi_scale_features@,
                r@.len() == 8 + i,
                forall|j: int| 0 <= j < 8 ==> #[trigger] r@[j] == self@.vector()[j],
                forall|j: int| 8 <= j < 8 + i ==> #[trigger] r@[j] == self@.vector()[j],
            decreases self.multi_scale_features.len() - i,
        {
            r.push(self.multi_scale_features[i]);
            i = i + 1;
        }
        assert(r@ =~= self@.vector());
        r
    }

    /// Get feature names
    pub fn feature_names() -> (r: Vec<&'static str>)
        ensures
            r@ == seq![
                "momentum_rank",
                "mr_rank",
                "momentum_z",
                "mr_z",
                "volatility",
                "recent_return",
                "attention_price",
                "attention_volume",
                "multi_scale_0",
                "multi_scale_1",
                "multi_scale_2",
                "multi_scale_3",
            ],
    {
        let mut r: Vec<&'static str> = Vec::new();
        r.push("momentum_rank");
        r.push("mr_rank");
        r.push("momentum_z");
        r.push("mr_z");
        r.push("volatility");
        r.push("recent_return");
        r.push("attention_price");
        r.push("attention_volume");
        r.push("multi_scale_0");
        r.push("multi_scale_1");
        r.push("multi_scale_2");
        r.push("multi_scale_3");
        r
    }
}

/// The place of an asset, from `from` on.
pub open spec fn asset_index(assets: Seq<u32>, asset_id: u32, from: int) -> Option<usize>
    decreases assets.len() - from,
{
    if from >= assets.len() {
        None
    } else if assets[from] == asset_id {
        Some(from as usize)
    } else {
        asset_index(assets, asset_id, from + 1)
    }
}

/// What arithmetic makes of an asset
#[derive(Debug)]
pub struct FeatureFigures {
    /// Its ranks, and what its returns come to
    pub ranked: AssetFigures,
    /// The weighted sum of its prices over that of the weights
    pub attention_price: u64,
    /// The weighted sum of its volumes over that of the weights
    pub attention_volume: u64,
    /// The attention-weighted prices of the scales
    pub scales: Vec<u64>,
}

/// Main feature engineering engine
#[derive(Debug)]
pub struct FeatureEngine {
    pub config: FeatureEngineConfig,
    pub cross_sectional_ranker: CrossSectionalRanker,
    /// One per asset
    pub temporal_extractors: Vec<TemporalAttentionExtractor>,
    /// Map index to asset_id
    pub asset_mapping: Vec<u32>,
}

/// A value where there is one, otherwise zero.
pub open spec fn or_zero(present: bool, value: u64) -> u64 {
    if present {
        value
    } else {
        ZERO
    }
}

impl FeatureEngine {
    /// No asset is registered twice, and never more than are allowed; each has a window.
    pub open spec fn inv(&self) -> bool {
        &&& self.asset_mapping@.len() <= self.config.max_assets
        &&& self.asset_mapping@.no_duplicates()
        &&& self.temporal_extractors@.len() == self.asset_mapping@.len()
        &&& self.cross_sectional_ranker.config == self.config.cross_sectional_config
        &&& forall|i: int|
            0 <= i < self.temporal_extractors@.len() ==> {
                let e = #[trigger] self.temporal_extractors@[i];
                e.inv() && e.config == self.config.temporal_config
            }
    }

    pub fn new(config: FeatureEngineConfig) -> (e: Self)
        ensures
            e.inv(),
            e.config == config,
            e.asset_mapping@.len() == 0,
            e.cross_sectional_ranker.assets().len() == 0,
            e.cross_sectional_ranker.momentum_ranks@.len() == 0,
            e.cross_sectional_ranker.mr_ranks@.len() == 0,
    {
        Self {
            config,
            cross_sectional_ranker: CrossSectionalRanker::new(config.cross_sectional_config),
            temporal_extractors: Vec::new(),
            asset_mapping: Vec::new(),
        }
    }

    /// Register a new asset
    /// Returns its index, none where it is registered already or there is no room
    pub fn register_asset(&mut self, asset_id: u32) -> (r: Option<usize>)
        requires
            old(self).inv(),
        ensures
            final(self).inv(),
            final(self).config == old(self).config,
            final(self).cross_sectional_ranker == old(self).cross_sectional_ranker,
            if old(self).asset_mapping@.len() >= old(self).config.max_assets || old(self).asset_mapping@.contains(asset_id) {
                r is None && *final(self) == *old(self)
            } else {
                let n = old(self).asset_mapping@.len() as int;
                &&& r == Some(n as usize)
                &&& final(self).asset_mapping@ == old(self).asset_mapping@.push(asset_id)
                &&& final(self).temporal_extractors@.drop_last() == old(self).temporal_extractors@
                &&& final(self).temporal_extractors@[n].prices@.len() == 0
                &&& final(self).temporal_extractors@[n].returns@.len() == 0
                &&& final(self).temporal_extractors@[n].current_position == 0
            },
    {
        if self.asset_mapping.len() >= self.config.max_assets {
            return None;
        }
        proof {
            lemma_asset_index(self.asset_mapping@, asset_id, 0);
        }
        if self.index_of(asset_id).is_some() {
            return None;
        }
        let index: usize = self.asset_mapping.len();
        self.asset_mapping.push(asset_id);
        self.temporal_extractors.push(TemporalAttentionExtractor::new(self.config.temporal_config));
        assert(self.temporal_extractors@.drop_last() =~= old(self).temporal_extractors@);
        assert(self.inv()) by {
            assert forall|i: int| 0 <= i < self.temporal_extractors@.len() implies {
                let e = #[trigger] self.temporal_extractors@[i];
                e.inv() && e.config == self.config.temporal_config
            } by {
                if i < index {
                    assert(self.temporal_extractors@[i] == old(self).temporal_extractors@[i]);
                }
            }
        }
        Some(index)
    }

    /// Update with new tick data
    ///
    /// `ret` is the return since the last price of the asset. Says what the sums of the asset have to
    /// take in and out; the assets are ranked anew by `recalculate_scores`.
    pub fn update_tick(&mut self, asset_id: u32, price: u64, volume: u64, ret: u64) -> (r: StatsUpdate)
        requires
            old(self).inv(),
            asset_index(old(self).asset_mapping@, asset_id, 0) matches Some(i)
                ==> old(self).temporal_extractors@[i as int].has_room(),
        ensures
            final(self).inv(),
            final(self).config == old(self).config,
            final(self).asset_mapping == old(self).asset_mapping,
            ({
                let before = old(self).cross_sectional_ranker;
                let after = final(self).cross_sectional_ranker;
                let window = crate::feat_eng::cross_sectional::window_of(
                    before.assets(),
                    AssetId(asset_id),
                );
                let max_len = before.config.longest();
                &&& after.assets() == crate::feat_eng::cross_sectional::with_window(
                    before.assets(),
                    AssetId(asset_id),
                    window.after(price, ret, max_len),
                )
                &&& r == window.change(price, ret, max_len)
                &&& after.momentum_ranks == before.momentum_ranks
                &&& after.mr_ranks == before.mr_ranks
            }),
            forall|i: int|
                0 <= i < old(self).temporal_extractors@.len() ==> {
                    let before = old(self).temporal_extractors@[i];
                    let after = #[trigger] final(self).temporal_extractors@[i];
                    if old(self).asset_mapping@[i] == asset_id {
                        TemporalAttentionExtractor::observed(before, after, price, volume, ret)
                    } else {
                        after == before
                    }
                },
    {
        let r = self.cross_sectional_ranker.update_price(AssetId(asset_id), price, ret);
        proof {
            lemma_asset_index(self.asset_mapping@, asset_id, 0);
        }
        match self.index_of(asset_id) {
            Some(index) => {
                self.temporal_extractors[index].add_observation(price, volume, ret);
                assert forall|i: int| 0 <= i < self.temporal_extractors@.len() && i != index implies (
                #[trigger] self.temporal_extractors@[i]) == old(self).temporal_extractors@[i] by {}
                assert forall|i: int| 0 <= i < self.asset_mapping@.len() && i != index implies (
                #[trigger] self.asset_mapping@[i]) != asset_id by {
                    assert(self.asset_mapping@[index as int] == asset_id);
                }
            },
            None => {},
        }
        r
    }

    /// Ranks the assets anew, for the growth and the mean return of each
    pub fn recalculate_scores(&mut self, growths: &Vec<u64>, means: &Vec<u64>)
        requires
            old(self).inv(),
            growths@.len() == old(self).cross_sectional_ranker.assets().len(),
            means@.len() == old(self).cross_sectional_ranker.assets().len(),
            old(self).cross_sectional_ranker.ranks() ==> {
                &&& crate::feat_eng::cross_sectional::all_numbers(
                    old(self).cross_sectional_ranker.momentums(growths@),
                )
                &&& crate::feat_eng::cross_sectional::all_numbers(
                    old(self).cross_sectional_ranker.mr_signals(means@),
                )
            },
        ensures
            final(self).inv(),
            final(self).config == old(self).config,
            final(self).asset_mapping == old(self).asset_mapping,
            final(self).temporal_extractors == old(self).temporal_extractors,
            final(self).cross_sectional_ranker.asset_stats == old(self).cross_sectional_ranker.asset_stats,
            ({
                let before = old(self).cross_sectional_ranker;
                let after = final(self).cross_sectional_ranker;
                if before.ranks() {
                    &&& after.momentum_ranks@ == crate::feat_eng::cross_sectional::ascending(
                        before.momentums(growths@),
                    )
                    &&& after.mr_ranks@ == crate::feat_eng::cross_sectional::ascending(
                        before.mr_signals(means@),
                    )
                } else {
                    after == before
                }
            }),
    {
        self.cross_sectional_ranker.recalculate_scores(growths, means);
    }

    /// The features of the asset at a place: those that its ranks give where it is ranked, and those
    /// of its window.
    pub open spec fn features_at(&self, i: int, f: FeatureFigures) -> FeaturesView {
        let asset = AssetId(self.asset_mapping@[i]);
        let ranker = &self.cross_sectional_ranker;
        let window = self.temporal_extractors@[i];
        let extracted = crate::feat_eng::cross_sectional::features_of(ranker, asset, f.ranked);
        FeaturesView {
            asset_id: asset.0,
            momentum_rank: or_zero(
                crate::feat_eng::cross_sectional::rank_in(
                    ranker.momentum_ranks@,
                    asset,
                    0,
                ) is Some,
                f.ranked.momentum_rank,
            ),
            mr_rank: or_zero(
                crate::feat_eng::cross_sectional::rank_in(ranker.mr_ranks@, asset, 0) is Some,
                f.ranked.mr_rank,
            ),
            momentum_z: or_zero(extracted is Some, extracted->0.momentum_z),
            mr_z: or_zero(extracted is Some, extracted->0.mr_z),
            volatility: or_zero(extracted is Some, extracted->0.volatility),
            recent_return: or_zero(extracted is Some, extracted->0.recent_return),
            attention_price: crate::feat_eng::temporal::weighted_over(
                window.prices@,
                f.attention_price,
            ),
            attention_volume: crate::feat_eng::temporal::weighted_over(
                window.volumes@,
                f.attention_volume,
            ),
            multi_scale_features: window.scales_of(f.scales@),
        }
    }

    /// Get combined features for an asset; none of one that is not registered
    pub fn get_features(&self, asset_id: u32, figures: &FeatureFigures) -> (r: Option<AssetFeatures>)
        requires
            self.inv(),
            figures.scales@.len() == self.config.temporal_config.num_time_scales,
        ensures
            match (r, asset_index(self.asset_mapping@, asset_id, 0)) {
                (Some(f), Some(i)) => f@ == self.features_at(i as int, *figures),
                (None, None) => true,
                _ => false,
            },
    {
        proof {
            lemma_asset_index(self.asset_mapping@, asset_id, 0);
        }
        let index: usize = match self.index_of(asset_id) {
            Some(index) => index,
            None => {
                return None;
            },
        };
        let asset = AssetId(asset_id);
        let mut features = AssetFeatures::new(asset_id);
        if self.cross_sectional_ranker.get_momentum_rank(asset).is_some() {
            features.momentum_rank = figures.ranked.momentum_rank;
        }
        if self.cross_sectional_ranker.get_mr_rank(asset).is_some() {
            features.mr_rank = figures.ranked.mr_rank;
        }
        let extractor = FeatureExtractor::new(&self.cross_sectional_ranker);
        match extractor.extract_features(asset, figures.ranked) {
            Some(extracted) => {
                features.momentum_z = extracted.momentum_z;
                features.mr_z = extracted.mr_z;
                features.volatility = extracted.volatility;
                features.recent_return = extracted.recent_return;
            },
            None => {},
        }
        let window = &self.temporal_extractors[index];
        features.attention_price = window.attention_weighted_price(figures.attention_price);
        features.attention_volume = window.attention_weighted_volume(figures.attention_volume);
        features.multi_scale_features = window.get_multi_scale_features(&figures.scales);
        assert(features@ =~= self.features_at(index as int, *figures));
        Some(features)
    }

    /// The features of all assets.
    pub open spec fn all_features(&self, figures: Seq<FeatureFigures>) -> Seq<FeaturesView> {
        Seq::new(self.asset_mapping@.len(), |i: int| self.features_at(i, figures[i]))
    }

    /// True where there are figures for every asset and for every scale.
    pub open spec fn figures_fit(&self, figures: Seq<FeatureFigures>) -> bool {
        &&& figures.len() == self.asset_mapping@.len()
        &&& forall|i: int|
            0 <= i < figures.len() ==> (#[trigger] figures[i]).scales@.len()
                == self.config.temporal_config.num_time_scales
    }

    /// Get features for all assets
    pub fn get_all_features(&self, figures: &Vec<FeatureFigures>) -> (r: Vec<AssetFeatures>)
        requires
            self.inv(),
            self.figures_fit(figures@),
        ensures
            views(r@) == self.all_features(figures@),
    {
        let mut r: Vec<AssetFeatures> = Vec::new();
        let mut i: usize = 0;
        while i < self.asset_mapping.len()
            invariant
                self.inv(),
                self.figures_fit(figures@),
                i <= self.asset_mapping@.len(),
                r@.len() == i,
                forall|j: int|
                    0 <= j < i ==> (#[trigger] r@[j])@ == self.features_at(j, figures@[j]),
            decreases self.asset_mapping.len() - i,
        {
            proof {
                lemma_asset_found(self.asset_mapping@, i as int, 0);
            }
            assert(figures@[i as int].scales@.len() == self.config.temporal_config.num_time_scales);
            match self.get_features(self.asset_mapping[i], &figures[i]) {
                Some(features) => {
                    r.push(features);
                },
                None => {},
            }
            i = i + 1;
        }
        assert(views(r@) =~= self.all_features(figures@));
        r
    }

    /// The index of an asset
    pub fn index_of(&self, asset_id: u32) -> (r: Option<usize>)
        ensures
            r == asset_index(self.asset_mapping@, asset_id, 0),
    {
        let mut i: usize = 0;
        while i < self.asset_mapping.len()
            invariant
                i <= self.asset_mapping@.len(),
                asset_index(self.asset_mapping@, asset_id, 0) == asset_index(
                    self.asset_mapping@,
                    asset_id,
                    i as int,
                ),
            decreases self.asset_mapping.len() - i,
        {
            if self.asset_mapping[i] == asset_id {
                return Some(i);
            }
            i = i + 1;
        }
        None
    }

    /// Serialize features to shared memory buffer format; nothing where that is off
    pub fn serialize_to_buffer(&self, figures: &Vec<FeatureFigures>) -> (r: Vec<u8>)
        requires
            self.inv(),
            self.figures_fit(figures@),
            self.asset_mapping@.len() <= u32::MAX,
        ensures
            r@ == if self.config.enable_ipc_serialization {
                features_bytes(self.all_features(figures@))
            } else {
                Seq::empty()
            },
    {
        if !self.config.enable_ipc_serialization {
            return Vec::new();
        }
        let features = self.get_all_features(figures);
        assert(views(features@).len() == features@.len());
        Self::write_features(&features)
    }

    /// The bytes of features
    fn write_features(features: &Vec<AssetFeatures>) -> (r: Vec<u8>)
        requires
            features@.len() <= u32::MAX,
        ensures
            r@ == features_bytes(views(features@)),
    {
        let mut buffer: Vec<u8> = Vec::new();
        push_u32_le(&mut buffer, features.len() as u32);
        push_u32_le(&mut buffer, FEATURE_COUNT as u32);
        let ghost all = views(features@);
        let ghost front = buffer@;
        let ghost written = Seq::<u64>::empty();
        assert(front + crate::feat_eng::temporal::words(written) =~= front);
        let mut i: usize = 0;
        while i < features.len()
            invariant
                i <= features@.len(),
                all == views(features@),
                written.len() == 12 * i,
                forall|j: int|
                    0 <= j < 12 * i ==> #[trigger] written[j] == row(all[j / 12])[j % 12],
                buffer@ == front + crate::feat_eng::temporal::words(written),
            decreases features.len() - i,
        {
            let values = features[i].to_vector();
            assert(all[i as int] == features@[i as int]@);
            let mut k: usize = 0;
            while k < FEATURE_COUNT
                invariant
                    k <= FEATURE_COUNT,
                    i < features@.len(),
                    all.len() == features@.len(),
                    values@ == all[i as int].vector(),
                    written.len() == 12 * i + k,
                    forall|j: int|
                        0 <= j < 12 * i + k ==> #[trigger] written[j] == row(all[j / 12])[j % 12],
                    buffer@ == front + crate::feat_eng::temporal::words(written),
                decreases FEATURE_COUNT - k,
            {
                let value: u64 = if k < values.len() {
                    values[k]
                } else {
                    0
                };
                let ghost before = written;
                proof {
                    crate::feat_eng::temporal::lemma_words_push(before, value);
                    written = before.push(value);
                    let j = 12 * i + k;
                    assert(j / 12 == i && j % 12 == k);
                    assert(row(all[i as int])[k as int] == value);
                }
                push_u64_le(&mut buffer, value);
                assert(buffer@ =~= front + crate::feat_eng::temporal::words(written));
                k = k + 1;
            }
            i = i + 1;
        }
        assert(written =~= rows(all));
        assert(buffer@ =~= features_bytes(all));
        buffer
    }

    /// True where the values that a buffer holds are enough for the features of its assets
    pub fn is_usable(buffer: &[u8]) -> (r: bool)
        ensures
            r == usable(buffer@),
    {
        if buffer.len() < 8 {
            return true;
        }
        let assets: u32 = read_u32_le(buffer, 0);
        let width: u32 = read_u32_le(buffer, 4);
        assert(assets as nat * width as nat <= 0xffff_ffff * 0xffff_ffff) by (nonlinear_arith)
            requires
                assets <= 0xffff_ffff,
                width <= 0xffff_ffff,
        ;
        let needed: u128 = 8 + assets as u128 * width as u128 * 8;
        if (buffer.len() as u128) < needed || assets == 0 {
            return true;
        }
        width == 0 || width >= 8
    }

    /// Deserialize features from shared memory buffer
    /// Returns none where the buffer is shorter than it says
    pub fn deserialize_from_buffer(buffer: &[u8]) -> (r: Option<Vec<AssetFeatures>>)
        requires
            usable(buffer@),
        ensures
            !holds_values(buffer@) ==> r is None,
            holds_values(buffer@) ==> r is Some && views(r->0@) == features_in(buffer@),
    {
        let total: usize = buffer.len();
        if total < 8 {
            return None;
        }
        let assets: u32 = read_u32_le(buffer, 0);
        let width: u32 = read_u32_le(buffer, 4);
        assert(assets as nat * width as nat <= 0xffff_ffff * 0xffff_ffff) by (nonlinear_arith)
            requires
                assets <= 0xffff_ffff,
                width <= 0xffff_ffff,
        ;
        let needed: u128 = 8 + assets as u128 * width as u128 * 8;
        if (total as u128) < needed {
            return None;
        }
        let mut features: Vec<AssetFeatures> = Vec::new();
        if width == 0 {
            assert(views(features@) =~= features_in(buffer@));
            return Some(features);
        }
        let mut offset: usize = 8;
        let mut i: u32 = 0;
        while i < assets
            invariant
                i <= assets,
                total == buffer@.len(),
                assets == assets_in(buffer@),
                width == width_in(buffer@),
                usable(buffer@),
                holds_values(buffer@),
                total >= 8 + assets * width * 8,
                width > 0,
                offset == 8 + 8 * (i * width),
                features@.len() == i,
                forall|j: int|
                    0 <= j < i ==> (#[trigger] features@[j])@ == FeaturesView::from_values(
                        crate::feat_eng::temporal::words_at(
                            buffer@,
                            8 + 8 * (j * width),
                            width as nat,
                        ),
                    ),
            decreases assets - i,
        {
            assert(i * width + width <= assets * width) by (nonlinear_arith)
                requires
                    i + 1 <= assets,
                    width >= 0,
            ;
            assert((i + 1) * width == i * width + width) by (nonlinear_arith);
            let start: usize = offset;
            let values = read_values(buffer, start, width);
            offset = start + 8 * width as usize;
            features.push(features_from(&values));
            i = i + 1;
        }
        assert(views(features@) =~= features_in(buffer@));
        Some(features)
    }

    /// Get the cross-sectional ranker for direct access
    pub fn cross_sectional_ranker(&self) -> (r: &CrossSectionalRanker)
        ensures
            *r == self.cross_sectional_ranker,
    {
        &self.cross_sectional_ranker
    }

    /// Check if engine is ready: the ranker is, and the window of every asset
    pub fn is_ready(&self) -> (r: bool)
        ensures
            r == (self.cross_sectional_ranker.has_data() && forall|i: int|
                0 <= i < self.temporal_extractors@.len() ==> (
                #[trigger] self.temporal_extractors@[i]).prices@.len() >= 10),
    {
        if !self.cross_sectional_ranker.is_ready() {
            return false;
        }
        let mut i: usize = 0;
        while i < self.temporal_extractors.len()
            invariant
                i <= self.temporal_extractors@.len(),
                forall|j: int|
                    0 <= j < i ==> (#[trigger] self.temporal_extractors@[j]).prices@.len() >= 10,
            decreases self.temporal_extractors.len() - i,
        {
            if !self.temporal_extractors[i].is_ready() {
                return false;
            }
            i = i + 1;
        }
        true
    }

    /// Clear all data; the assets stay registered
    pub fn clear(&mut self)
        requires
            old(self).inv(),
        ensures
            final(self).inv(),
            final(self).config == old(self).config,
            final(self).asset_mapping == old(self).asset_mapping,
            final(self).cross_sectional_ranker.assets().len() == 0,
            final(self).cross_sectional_ranker.momentum_ranks@.len() == 0,
            final(self).cross_sectional_ranker.mr_ranks@.len() == 0,
            forall|i: int|
                0 <= i < final(self).temporal_extractors@.len() ==> {
                    let e = #[trigger] final(self).temporal_extractors@[i];
                    &&& e.prices@.len() == 0
                    &&& e.volumes@.len() == 0
                    &&& e.returns@.len() == 0
                    &&& e.current_position == 0
                },
    {
        self.cross_sectional_ranker.clear();
        let mut i: usize = 0;
        while i < self.temporal_extractors.len()
            invariant
                i <= self.temporal_extractors@.len(),
                self.config == old(self).config,
                self.asset_mapping == old(self).asset_mapping,
                self.inv(),
                self.cross_sectional_ranker.assets().len() == 0,
                self.cross_sectional_ranker.momentum_ranks@.len() == 0,
                self.cross_sectional_ranker.mr_ranks@.len() == 0,
                forall|j: int|
                    0 <= j < i ==> {
                        let e = #[trigger] self.temporal_extractors@[j];
                        &&& e.prices@.len() == 0
                        &&& e.volumes@.len() == 0
                        &&& e.returns@.len() == 0
                        &&& e.current_position == 0
                    },
            decreases self.temporal_extractors.len() - i,
        {
            self.temporal_extractors[i].clear();
            i = i + 1;
        }
    }

    /// Get number of watched assets
    pub fn asset_count(&self) -> (n: usize)
        ensures
            n == self.asset_mapping@.len(),
    {
        self.asset_mapping.len()
    }
}

/// Reads numbers from a place on.
fn read_values(buffer: &[u8], start: usize, width: u32) -> (r: Vec<u64>)
    requires
        start + 8 * width <= buffer@.len(),
    ensures
        r@ == crate::feat_eng::temporal::words_at(buffer@, start as int, width as nat),
{
    let room: usize = buffer.len();
    let mut values: Vec<u64> = Vec::new();
    let mut at: usize = start;
    let mut k: u32 = 0;
    while k < width
        invariant
            k <= width,
            room == buffer@.len(),
            start + 8 * width <= buffer@.len(),
            at == start + 8 * k,
            values@.len() == k,
            forall|j: int|
                0 <= j < k ==> #[trigger] values@[j] == crate::feat_eng::temporal::word_at(
                    buffer@,
                    start + 8 * j,
                ),
        decreases width - k,
    {
        values.push(read_u64_le(buffer, at));
        at = at + 8;
        k = k + 1;
    }
    assert(values@ =~= crate::feat_eng::temporal::words_at(buffer@, start as int, width as nat));
    values
}

/// The features of an asset without a number, from at least eight values.
fn features_from(values: &Vec<u64>) -> (f: AssetFeatures)
    requires
        values@.len() >= 8,
    ensures
        f@ == FeaturesView::from_values(values@),
{
    let mut scales: Vec<u64> = Vec::new();
    let mut k: usize = 8;
    while k < values.len()
        invariant
            8 <= k <= values@.len(),
            scales@.len() == k - 8,
            forall|j: int| 0 <= j < k - 8 ==> #[trigger] scales@[j] == values@[j + 8],
        decreases values.len() - k,
    {
        scales.push(values[k]);
        k = k + 1;
    }
    assert(scales@ =~= values@.skip(8));
    AssetFeatures {
        asset_id: 0,
        momentum_rank: values[0],
        mr_rank: values[1],
        momentum_z: values[2],
        mr_z: values[3],
        volatility: values[4],
        recent_return: values[5],
        attention_price: values[6],
        attention_volume: values[7],
        multi_scale_features: scales,
    }
}

proof fn lemma_asset_index(assets: Seq<u32>, asset_id: u32, from: int)
    requires
        0 <= from <= assets.len(),
        assets.len() <= usize::MAX,
    ensures
        match asset_index(assets, asset_id, from) {
            Some(i) => from <= i < assets.len() && assets[i as int] == asset_id,
            None => forall|j: int| from <= j < assets.len() ==> #[trigger] assets[j] != asset_id,
        },
    decreases assets.len() - from,
{
    if from < assets.len() && assets[from] != asset_id {
        lemma_asset_index(assets, asset_id, from + 1);
    }
}

/// Where no asset occurs twice, the asset at a place is found there.
proof fn lemma_asset_found(assets: Seq<u32>, i: int, from: int)
    requires
        assets.no_duplicates(),
        assets.len() <= usize::MAX,
        0 <= from <= i < assets.len(),
    ensures
        asset_index(assets, assets[i], from) == Some(i as usize),
    decreases assets.len() - from,
{
    if from < i {
        assert(assets[from] != assets[i]);
        lemma_asset_found(assets, i, from + 1);
    }
}

/// What comes back of an asset that was written: its values, four of its scales, with zeros where
/// there were fewer, and no number.
pub open spec fn restored(f: FeaturesView) -> FeaturesView {
    FeaturesView {
        asset_id: 0,
        multi_scale_features: Seq::new(4, |i: int| value_at(f.multi_scale_features, i)),
        ..f
    }
}

/// Features that are written to a buffer and read back are the same, but for the numbers of the
/// assets and for scales beyond the fourth.
pub proof fn law_features_read_back(features: Seq<FeaturesView>)
    requires
        features.len() <= u32::MAX,
    ensures
        usable(features_bytes(features)),
        holds_values(features_bytes(features)),
        features_in(features_bytes(features)) == features.map_values(|f: FeaturesView| restored(f)),
{
    let bytes = features_bytes(features);
    let h1 = crate::bytes::le_bytes(features.len(), 4);
    let h2 = crate::bytes::le_bytes(12, 4);
    let body = crate::feat_eng::temporal::words(rows(features));
    crate::bytes::lemma_pow256();
    crate::bytes::lemma_le_roundtrip(features.len(), 4);
    crate::bytes::lemma_le_roundtrip(12, 4);
    assert(bytes.subrange(0, 4) =~= h1);
    assert(bytes.subrange(4, 8) =~= h2);
    assert(bytes.len() == 8 + features.len() * 12 * 8);
    assert forall|i: int| 0 <= i < features.len() implies #[trigger] features_in(bytes)[i]
        == restored(features[i]) by {
        let values = crate::feat_eng::temporal::words_at(bytes, 8 + 8 * (i * 12), 12);
        assert forall|k: int| 0 <= k < 12 implies #[trigger] values[k] == row(features[i])[k] by {
            let j = 12 * i + k;
            assert(j / 12 == i && j % 12 == k);
            crate::feat_eng::temporal::lemma_words_at(
                rows(features),
                h1 + h2,
                Seq::<u8>::empty(),
                j,
            );
            assert(h1 + h2 + body + Seq::<u8>::empty() =~= bytes);
        }
        let f = features[i];
        assert(FeaturesView::from_values(values) =~= restored(f)) by {
            assert(f.vector().len() == 8 + f.multi_scale_features.len());
            assert forall|k: int| 0 <= k < 4 implies values.skip(8)[k] == value_at(
                f.multi_scale_features,
                k,
            ) by {
                assert(values[k + 8] == row(f)[k + 8]);
            }
            assert(values[0] == row(f)[0] && values[1] == row(f)[1] && values[2] == row(f)[2]
                && values[3] == row(f)[3] && values[4] == row(f)[4] && values[5] == row(f)[5]
                && values[6] == row(f)[6] && values[7] == row(f)[7]);
        }
    }
    assert(features_in(bytes) =~= features.map_values(|f: FeaturesView| restored(f)));
}

/// A vector of features holds them in a fixed order: the two ranks, the two scores, volatility and
/// return, the attention to price and volume, and the scales.
pub proof fn law_vector_has_its_order(f: FeaturesView, i: int)
    requires
        0 <= i < f.multi_scale_features.len(),
    ensures
        f.vector().len() == 8 + f.multi_scale_features.len(),
        f.vector()[0] == f.momentum_rank,
        f.vector()[1] == f.mr_rank,
        f.vector()[2] == f.momentum_z,
        f.vector()[3] == f.mr_z,
        f.vector()[4] == f.volatility,
        f.vector()[5] == f.recent_return,
        f.vector()[6] == f.attention_price,
        f.vector()[7] == f.attention_volume,
        f.vector()[8 + i] == f.multi_scale_features[i],
{
}

/// Written features start with how many assets there are and with how many values each has, twelve,
/// in four bytes each; the values follow asset by asset.
pub proof fn law_features_have_their_layout(features: Seq<FeaturesView>, i: int, k: int)
    requires
        features.len() <= u32::MAX,
        0 <= i < features.len(),
        0 <= k < 12,
    ensures
        ({
            let b = features_bytes(features);
            let at = 8 + 8 * (12 * i + k);
            &&& b.len() == 8 + 96 * features.len()
            &&& crate::bytes::le_number(b.subrange(0, 4)) == features.len()
            &&& crate::bytes::le_number(b.subrange(4, 8)) == 12
            &&& crate::feat_eng::temporal::word_at(b, at) == if k < features[i].vector().len() {
                features[i].vector()[k]
            } else {
                0
            }
        }),
{
    let b = features_bytes(features);
    let h1 = crate::bytes::le_bytes(features.len(), 4);
    let h2 = crate::bytes::le_bytes(12, 4);
    let body = crate::feat_eng::temporal::words(rows(features));
    crate::bytes::lemma_pow256();
    crate::bytes::lemma_le_roundtrip(features.len(), 4);
    crate::bytes::lemma_le_roundtrip(12, 4);
    assert(b.subrange(0, 4) =~= h1);
    assert(b.subrange(4, 8) =~= h2);
    let j = 12 * i + k;
    assert(j / 12 == i && j % 12 == k);
    crate::feat_eng::temporal::lemma_words_at(rows(features), h1 + h2, Seq::<u8>::empty(), j);
    assert(h1 + h2 + body + Seq::<u8>::empty() =~= b);
}

/// The features of an asset bring together what its ranks give, where it is ranked, and what its
/// window gives.
pub proof fn law_features_bring_ranks_and_window_together(e: FeatureEngine, i: int, f: FeatureFigures)
    requires
        e.inv(),
        0 <= i < e.asset_mapping@.len(),
    ensures
        ({
            let v = e.features_at(i, f);
            let asset = AssetId(e.asset_mapping@[i]);
            let ranker = e.cross_sectional_ranker;
            let ranked = crate::feat_eng::cross_sectional::features_of(&ranker, asset, f.ranked);
            &&& v.asset_id == e.asset_mapping@[i]
            &&& ranked is Some ==> v.momentum_rank == f.ranked.momentum_rank && v.mr_rank
                == f.ranked.mr_rank && v.momentum_z == ranked->0.momentum_z && v.mr_z
                == ranked->0.mr_z && v.volatility == ranked->0.volatility && v.recent_return
                == ranked->0.recent_return
            &&& ranked is None ==> v.momentum_z == ZERO && v.mr_z == ZERO && v.volatility == ZERO
                && v.recent_return == ZERO
            &&& e.temporal_extractors@[i].prices@.len() > 0 ==> v.attention_price
                == f.attention_price && v.attention_volume == f.attention_volume
            &&& e.temporal_extractors@[i].prices@.len() == 0 ==> v.attention_price == ZERO
                && v.attention_volume == ZERO
        }),
{
}

/// Bytes hold the values that they announce only where they are long enough for them and for the two
/// numbers in front.
pub proof fn law_values_need_their_bytes(bytes: Seq<u8>)
    ensures
        holds_values(bytes) <==> bytes.len() >= 8 && bytes.len() - 8 >= 8 * (
        crate::bytes::le_number(bytes.subrange(0, 4)) * crate::bytes::le_number(
            bytes.subrange(4, 8),
        )),
{
    let (a, w) = (assets_in(bytes) as int, width_in(bytes) as int);
    assert(a * w * 8 == 8 * (a * w)) by (nonlinear_arith);
}

/// Bytes that announce values for their assets hold features for each of them; bytes that announce
/// none hold no features.
pub proof fn law_features_are_announced(bytes: Seq<u8>, i: int)
    requires
        bytes.len() >= 8,
    ensures
        crate::bytes::le_number(bytes.subrange(4, 8)) == 0 ==> features_in(bytes).len() == 0,
        crate::bytes::le_number(bytes.subrange(4, 8)) > 0 ==> features_in(bytes).len()
            == crate::bytes::le_number(bytes.subrange(0, 4)),
        0 <= i < features_in(bytes).len() ==> features_in(bytes)[i].asset_id == 0,
{
}

} // verus!
