use hft_core::feat_eng::cross_sectional::{
    AssetFigures, AssetId, CrossSectionalConfig, CrossSectionalRanker, FeatureExtractor, FeatureVector, RankPlace,
    RollingStats,
};
use hft_core::feat_eng::engine::{AssetFeatures, FeatureEngine, FeatureEngineConfig, FeatureFigures};
use hft_core::feat_eng::temporal::{
    ContextFigures, TemporalAttentionConfig, TemporalAttentionExtractor, TemporalContext, USUAL_DECAY,
};
use hft_core::features::registry::{
    symbol_to_u64, FeatureManager, FeatureRegistry, FeatureSchema, NormalizationType, Reading, TickReadings,
};
use hft_core::features::normalization;
use hft_core::features::rolling::{ExportParts, RingBuffer, RollingFeatures};
use hft_core::features::store::{FeatureEntry, FeatureKey, FeatureStore, FeatureType};

fn bits(x: f64) -> u64 {
    x.to_bits()
}

fn num(x: u64) -> f64 {
    f64::from_bits(x)
}

/// The growth of each asset and its mean return.
fn score_parts(ranker: &CrossSectionalRanker) -> (Vec<u64>, Vec<u64>) {
    let lookback = ranker.config.momentum_lookback;
    let growth = |s: &RollingStats| match s.momentum_span(lookback) {
        Some((first, last)) => num(last) / num(first) - 1.0,
        None => f64::NAN,
    };
    let growths = ranker.asset_stats.iter().map(|a| bits(growth(&a.stats))).collect();
    let means = ranker.asset_stats.iter().map(|a| bits(mean_return(&a.stats))).collect();
    (growths, means)
}

fn mean_return(s: &RollingStats) -> f64 {
    s.returns.iter().map(|&r| num(r)).sum::<f64>() / s.returns.len() as f64
}

fn deviation(s: &RollingStats) -> f64 {
    let n = s.returns.len() as f64;
    let sum: f64 = s.returns.iter().map(|&r| num(r)).sum();
    let squares: f64 = s.returns.iter().map(|&r| num(r) * num(r)).sum();
    ((squares - sum * sum / n) / (n - 1.0)).max(0.0).sqrt()
}

/// The logarithmic return of a price.
fn log_return(last: Option<u64>, price: f64) -> u64 {
    bits(last.map_or(0.0, |last| (price / num(last)).ln()))
}

/// Updates a ranker with a price and ranks anew.
fn update(ranker: &mut CrossSectionalRanker, asset: AssetId, price: f64) {
    let ret = log_return(ranker.last_price(asset), price);
    ranker.update_price(asset, bits(price), ret);
    let (growths, means) = score_parts(ranker);
    ranker.recalculate_scores(&growths, &means);
}

fn share(place: Option<RankPlace>) -> u64 {
    bits(place.map_or(f64::NAN, |p| p.place as f64 / p.last as f64))
}

fn asset_figures(ranker: &CrossSectionalRanker, asset: AssetId) -> AssetFigures {
    let stats = ranker.asset_stats.iter().find(|a| a.asset == asset).map(|a| &a.stats);
    AssetFigures {
        momentum_rank: share(ranker.get_momentum_rank(asset)),
        mr_rank: share(ranker.get_mr_rank(asset)),
        deviation: bits(stats.map_or(f64::NAN, deviation)),
        mean_return: bits(stats.map_or(f64::NAN, mean_return)),
    }
}

/// The weighted mean of values with their ages, on a scale.
fn weighted(terms: &[(usize, u64)], constant: f64) -> u64 {
    let weight = |age: usize| (-(age as f64) / constant).exp();
    let total: f64 = terms.iter().map(|t| weight(t.0)).sum();
    let sum: f64 = terms.iter().map(|t| weight(t.0) * num(t.1)).sum();
    bits(sum / total.max(1e-9))
}

fn constant(config: &TemporalAttentionConfig, scale: usize) -> f64 {
    config.max_sequence_length as f64 / 4.0 * 2.0f64.powi(scale as i32)
}

fn scales(e: &TemporalAttentionExtractor) -> Vec<u64> {
    let terms = e.price_terms();
    (0..e.config.num_time_scales).map(|s| weighted(&terms, constant(&e.config, s))).collect()
}

fn attention(e: &TemporalAttentionExtractor, terms: &[(usize, u64)]) -> u64 {
    weighted(terms, constant(&e.config, e.config.num_time_scales - 1))
}

fn feature_figures(engine: &FeatureEngine, index: usize) -> FeatureFigures {
    let e = &engine.temporal_extractors[index];
    FeatureFigures {
        ranked: asset_figures(engine.cross_sectional_ranker(), AssetId(engine.asset_mapping[index])),
        attention_price: attention(e, &e.price_terms()),
        attention_volume: attention(e, &e.volume_terms()),
        scales: scales(e),
    }
}

fn all_figures(engine: &FeatureEngine) -> Vec<FeatureFigures> {
    (0..engine.asset_count()).map(|i| feature_figures(engine, i)).collect()
}

/// Takes a tick and ranks anew.
fn tick(engine: &mut FeatureEngine, asset_id: u32, price: f64, volume: f64) {
    let ret = log_return(engine.cross_sectional_ranker().last_price(AssetId(asset_id)), price);
    engine.update_tick(asset_id, bits(price), bits(volume), ret);
    let (growths, means) = score_parts(engine.cross_sectional_ranker());
    engine.recalculate_scores(&growths, &means);
}

#[test]
fn test_cross_sectional_ranker() {
    let config = CrossSectionalConfig { momentum_lookback: 10, mean_reversion_lookback: 10, min_assets: 3 };
    let mut ranker = CrossSectionalRanker::new(config);

    for i in 0..20 {
        update(&mut ranker, AssetId(0), 100.0 * (1.0 + 0.01 * i as f64));
        update(&mut ranker, AssetId(1), 100.0 + (i % 3) as f64);
        update(&mut ranker, AssetId(2), 100.0 * (1.0 - 0.01 * i as f64));
    }

    assert!(ranker.is_ready());

    let rank0 = ranker.get_momentum_rank(AssetId(0)).unwrap();
    let rank2 = ranker.get_momentum_rank(AssetId(2)).unwrap();
    assert!(rank0.place as f64 / rank0.last as f64 > rank2.place as f64 / rank2.last as f64);
    assert_eq!(ranker.top_momentum(1)[0].0, AssetId(0));
    assert_eq!(ranker.bottom_momentum(9).len(), 3);
    assert_eq!(ranker.bottom_momentum(1)[0].0, AssetId(2));
    assert_eq!(ranker.top_momentum(1), vec![(AssetId(0), RankPlace { place: 2, last: 2 })]);
    assert_eq!(ranker.top_momentum(2)[1], (AssetId(1), RankPlace { place: 1, last: 2 }));
    assert_eq!(ranker.bottom_momentum(1), vec![(AssetId(2), RankPlace { place: 0, last: 2 })]);
    assert!(ranker.top_momentum(0).is_empty());
    assert!(ranker.get_mr_rank(AssetId(2)).unwrap().place > ranker.get_mr_rank(AssetId(0)).unwrap().place);
    assert!(ranker.get_momentum_rank(AssetId(9)).is_none());
}

#[test]
fn test_feature_extractor() {
    let config = CrossSectionalConfig::default();
    let mut ranker = CrossSectionalRanker::new(config);

    for i in 0..100 {
        update(&mut ranker, AssetId(1), 100.0 + i as f64);
        update(&mut ranker, AssetId(2), 100.0 - i as f64 * 0.5);
        update(&mut ranker, AssetId(3), 100.0 + (i % 10) as f64);
    }

    let extractor = FeatureExtractor::new(&ranker);
    let features = extractor.extract_features(AssetId(1), asset_figures(&ranker, AssetId(1)));

    assert!(features.is_some());
    let f = features.unwrap();
    assert!(num(f.momentum_z) > 0.0);
    assert_eq!(num(f.momentum_z), 199.0 / 100.0 - 1.0);
    assert_eq!(num(f.mr_z), -num(f.recent_return));
    assert!(num(f.volatility) > 0.0);
    assert_eq!(num(f.momentum_rank), 1.0);
    let other = asset_figures(&ranker, AssetId(9));
    assert!(extractor.extract_features(AssetId(9), other).is_none());
    let figures: Vec<AssetFigures> = (1..=3).map(|id| asset_figures(&ranker, AssetId(id))).collect();
    let all = extractor.extract_all(&figures);
    assert_eq!(all.len(), 3);
    assert_eq!(all[0], f);
    assert_eq!(num(FeatureVector::new(AssetId(4)).volatility), 0.0);
    assert_eq!(ranker.get_combined_signal(AssetId(1), bits(0.75)), Some(bits(0.75)));
    assert_eq!(ranker.get_combined_signal(AssetId(9), bits(0.75)), None);
}

#[test]
fn short_windows_score_nothing() {
    let mut ranker = CrossSectionalRanker::new(CrossSectionalConfig::default());
    ranker.update_price(AssetId(1), bits(5.0), bits(0.0));
    let stats = &ranker.asset_stats[0].stats;
    assert_eq!(num(stats.momentum(10, bits(7.0))), 0.0);
    assert_eq!(num(stats.mean_return(bits(7.0))), 0.0);
    assert_eq!(num(stats.volatility(bits(7.0))), 0.0);
    assert_eq!(num(stats.z_score(bits(1.0), bits(7.0))), 0.0);
    ranker.update_price(AssetId(1), bits(6.0), bits(0.25));
    assert_eq!(num(ranker.asset_stats[0].stats.mean_return(bits(7.0))), 7.0);
    assert_eq!(num(ranker.asset_stats[0].stats.volatility(bits(7.0))), 0.0);
    ranker.update_price(AssetId(1), bits(8.0), bits(0.5));
    let stats = &ranker.asset_stats[0].stats;
    assert_eq!(stats.momentum_span(2), Some((bits(6.0), bits(8.0))));
    assert_eq!(num(stats.momentum(2, bits(7.0))), 7.0);
    assert_eq!(num(stats.momentum(0, bits(7.0))), 0.0);
    assert_eq!(num(stats.volatility(bits(7.0))), 7.0);
    assert_eq!(num(stats.z_score(bits(1.0), bits(7.0))), 7.0);
    assert_eq!(num(stats.z_score(bits(1e-10), bits(7.0))), 0.0);
}

#[test]
fn rankers_forget_and_wait() {
    let config = CrossSectionalConfig { momentum_lookback: 2, mean_reversion_lookback: 1, min_assets: 2 };
    let mut ranker = CrossSectionalRanker::new(config);
    let first = ranker.update_price(AssetId(1), bits(1.0), bits(0.0));
    assert!(!first.return_added);
    let second = ranker.update_price(AssetId(1), bits(2.0), bits(0.5));
    assert!(second.return_added);
    assert_eq!(second.old_price, None);
    let third = ranker.update_price(AssetId(1), bits(3.0), bits(0.25));
    assert_eq!(third.old_price, Some(bits(1.0)));
    ranker.recalculate_scores(&vec![bits(1.0)], &vec![bits(1.0)]);
    assert!(ranker.get_momentum_rank(AssetId(1)).is_none());
    assert!(!ranker.is_ready());
    assert_eq!(ranker.asset_count(), 1);
    ranker.clear();
    assert_eq!(ranker.asset_count(), 0);
}

#[test]
fn test_serialization() {
    let config = FeatureEngineConfig::default();
    let mut engine = FeatureEngine::new(config);

    engine.register_asset(1);
    engine.register_asset(2);

    for i in 0..30 {
        tick(&mut engine, 1, 100.0 + i as f64, 1000.0);
        tick(&mut engine, 2, 95.0 + i as f64, 1500.0);
    }

    let figures = all_figures(&engine);
    let buffer = engine.serialize_to_buffer(&figures);
    assert!(!buffer.is_empty());

    assert!(FeatureEngine::is_usable(&buffer));
    let restored = FeatureEngine::deserialize_from_buffer(&buffer);
    assert!(restored.is_some());
    let features = restored.unwrap();
    assert_eq!(features.len(), 2);
    // Two assets are too few to rank.
    assert_eq!(num(features[0].momentum_rank), 0.0);
    assert_eq!(features[1].attention_price, figures[1].attention_price);
    assert_eq!(features[1].multi_scale_features, figures[1].scales);
    assert!(FeatureEngine::deserialize_from_buffer(&buffer[..buffer.len() - 1]).is_none());
    let quiet = FeatureEngineConfig { enable_ipc_serialization: false, ..config };
    assert!(FeatureEngine::new(quiet).serialize_to_buffer(&Vec::new()).is_empty());
}

#[test]
fn assets_are_registered_once() {
    let mut config = FeatureEngineConfig::default();
    config.max_assets = 2;
    let mut engine = FeatureEngine::new(config);
    assert_eq!(engine.register_asset(7), Some(0));
    assert_eq!(engine.register_asset(7), None);
    assert_eq!(engine.register_asset(8), Some(1));
    assert_eq!(engine.register_asset(9), None);
    assert_eq!(engine.asset_count(), 2);
    assert_eq!(engine.index_of(8), Some(1));
    let mut features = AssetFeatures::new(3);
    features.multi_scale_features = vec![0; 4];
    assert_eq!(features.to_vector().len(), AssetFeatures::feature_names().len());
}

#[test]
fn test_temporal_attention_basic() {
    let config = TemporalAttentionConfig { max_sequence_length: 100, decay_factor: bits(0.95), num_time_scales: 3 };
    let mut extractor = TemporalAttentionExtractor::new(config);

    for i in 0..50 {
        let price = 100.0 + i as f64;
        let volume = 1000.0 + (i % 10) as f64 * 100.0;
        extractor.add_observation(bits(price), bits(volume), bits(0.01));
    }

    assert!(extractor.is_ready());

    let attn_price = num(extractor.attention_weighted_price(attention(&extractor, &extractor.price_terms())));
    let current_price = 100.0 + 49.0;
    assert!(attn_price > 100.0);
    assert!(attn_price <= current_price);
}

#[test]
fn windows_keep_the_latest() {
    let config = TemporalAttentionConfig { max_sequence_length: 3, decay_factor: bits(0.5), num_time_scales: 2 };
    let mut extractor = TemporalAttentionExtractor::new(config);
    for i in 1..=5 {
        extractor.add_observation(bits(i as f64), bits(10.0 * i as f64), bits(0.1 * i as f64));
    }
    assert_eq!(extractor.price_window(), vec![bits(3.0), bits(4.0), bits(5.0)]);
    assert_eq!(extractor.volume_window(), vec![bits(30.0), bits(40.0), bits(50.0)]);
    assert_eq!(extractor.return_window().len(), 3);
    assert_eq!(extractor.distance(0, 2), Some(2));
    assert_eq!(extractor.distance(0, 3), None);
    assert_eq!(extractor.price_terms(), vec![(2, bits(3.0)), (1, bits(4.0)), (0, bits(5.0))]);
    assert_eq!(extractor.volume_terms()[0], (2, bits(30.0)));
    assert_eq!(num(extractor.pairwise_attention(2, 0, bits(0.25))), 0.25);
    assert_eq!(num(extractor.pairwise_attention(3, 0, bits(0.25))), 0.0);
    let figures = ContextFigures {
        attention_price: bits(4.5),
        attention_volume: bits(45.0),
        scales: vec![bits(4.25), bits(4.75)],
        avg_return: bits(0.4),
    };
    let context = extractor.get_context_vector(&figures);
    assert_eq!((context.sequence_length, num(context.attention_price)), (3, 4.5));
    assert_eq!((num(context.current_price), num(context.avg_return)), (5.0, 0.4));
    assert_eq!((context.price_decay_rate, &context.multi_scale_prices), (bits(0.5), &figures.scales));
    assert_eq!(extractor.sequence_length(), 3);
    assert!(!extractor.is_ready());
    extractor.clear();
    assert_eq!(extractor.sequence_length(), 0);
    let empty = extractor.get_context_vector(&figures);
    assert_eq!((num(empty.attention_price), num(empty.attention_volume), num(empty.current_price)), (0.0, 0.0, 0.0));
    assert_eq!(empty.multi_scale_prices, vec![bits(0.0), bits(0.0)]);
    assert_eq!(num(USUAL_DECAY), 0.95);
    // A first price has no return.
    extractor.add_observation(bits(1.0), bits(1.0), bits(9.0));
    assert_eq!(extractor.return_window(), vec![0]);
}

#[test]
fn test_context_serialization() {
    let context = TemporalContext {
        sequence_length: 100,
        attention_price: bits(105.5),
        attention_volume: bits(1500.0),
        multi_scale_prices: vec![bits(104.0), bits(103.0), bits(102.0)],
        price_decay_rate: bits(0.95),
        current_price: bits(106.0),
        avg_return: bits(0.001),
    };

    let bytes = context.to_bytes();
    let restored = TemporalContext::from_bytes(&bytes).unwrap();

    assert_eq!(restored.sequence_length, context.sequence_length);
    assert!((f64::from_bits(restored.attention_price) - f64::from_bits(context.attention_price)).abs() < 1e-9);
    assert_eq!(restored.multi_scale_prices, context.multi_scale_prices);
    assert!(TemporalContext::is_complete(&bytes));
    assert!(TemporalContext::from_bytes(&bytes[..20]).is_none());
}

#[test]
fn test_feature_schema_creation() {
    let schema = FeatureSchema::new("rsi", FeatureType::Technical, NormalizationType::MinMax, bits(0.0), bits(100.0));

    assert_eq!(schema.name, "rsi");
    assert_eq!(schema.feature_type, FeatureType::Technical);
    assert!(schema.required);

    let optional_schema = schema.clone().optional();
    assert!(!optional_schema.required);
}

fn reading(value: f64, normalized: f32) -> Reading {
    Reading { value: bits(value), normalized: normalized.to_bits() }
}

fn parts(rsi: u32) -> ExportParts {
    ExportParts {
        rsi,
        macd: 2,
        volatility: 3,
        momentum: 4,
        price_over_vwap: 5,
        mean_price: 6,
        price_deviation: 7,
        mean_volume: 8,
        skewness: Some(9),
        kurtosis: None,
    }
}

fn readings() -> TickReadings {
    TickReadings {
        rsi: reading(50.0, 0.5),
        macd: reading(1.0, 0.505),
        volatility: reading(0.1, 0.0997),
        momentum: reading(0.2, 0.197),
    }
}

#[test]
fn test_feature_registry() {
    let mut registry = FeatureRegistry::new();

    registry.register_symbol(
        "BTCUSDT",
        vec![FeatureSchema::new("rsi", FeatureType::Technical, NormalizationType::MinMax, bits(0.0), bits(100.0))],
    );

    registry.start();
    registry.process_tick("BTCUSDT", &readings(), 5);

    let symbols = registry.get_symbols();
    assert!(symbols.contains(&"BTCUSDT".to_string()));

    let features = registry.get_feature_vector("BTCUSDT", parts(1));
    assert!(features.is_some());
    assert_eq!(features, Some(vec![1, 2, 3, 4, 5, 6, 7, 8, 9, 0]));
    assert_eq!(registry.store().get_feature("BTCUSDT", "rsi").unwrap().value, bits(50.0));
    assert_eq!(registry.store().get_normalized("BTCUSDT", "momentum"), Some(0.197f32.to_bits()));
    assert_eq!(registry.get_update_count(), 1);
    registry.stop();
    registry.process_tick("BTCUSDT", &readings(), 6);
    assert_eq!(registry.get_update_count(), 1);
    assert_eq!(registry.get_feature_vector("OTHER", parts(1)), None);
}

#[test]
fn test_feature_manager() {
    let mut manager = FeatureManager::new();

    manager.register_symbol("ETHUSDT");
    manager.start();

    assert!(manager.process_tick("ETHUSDT", &readings(), parts(3), 9).is_none());

    assert!(manager.is_running());

    let features = manager.get_features("ETHUSDT", parts(3));
    assert!(features.is_some());

    manager.stop();
    assert!(!manager.is_running());
}

#[test]
fn shared_memory_gets_a_frame() {
    let mut manager = FeatureManager::new().with_shared_memory();
    manager.register_symbol("ETHUSDT");
    manager.start();
    let frame = manager.process_tick("ETHUSDT", &readings(), parts(3), 9).unwrap();
    assert_eq!(frame.symbol_id, symbol_to_u64("ETHUSDT"));
    assert_eq!(frame.features, vec![3, 2, 3, 4, 5, 6, 7, 8, 9, 0]);
    assert_eq!(frame.timestamp_ns, 9);
    assert!(manager.process_tick("OTHER", &readings(), parts(3), 9).is_none());
}

#[test]
fn windows_take_the_ticks_of_their_symbol() {
    let mut registry = FeatureRegistry::new();
    registry.register_symbol("A", Vec::new());
    registry.register_symbol("B", Vec::new());
    assert_eq!(registry.window_of("A").unwrap().window_size, 100);
    assert!(registry.window_of("C").is_none());
    // A registry that is not running takes nothing.
    registry.observe("A", bits(10.0), bits(1.0), bits(0.0), 1);
    assert_eq!(registry.window_of("A").unwrap().prices.len(), 0);
    registry.start();
    registry.observe("A", bits(10.0), bits(1.0), bits(7.0), 2);
    registry.observe("A", bits(11.0), bits(2.0), bits(0.1), 3);
    registry.observe("C", bits(12.0), bits(3.0), bits(0.0), 4);
    registry.set_indicators("A", bits(60.0), bits(1.0));
    let windows = registry.window_of("A").unwrap();
    assert_eq!(windows.prices.values(), vec![bits(11.0), bits(10.0)]);
    assert_eq!(windows.volumes.values(), vec![bits(2.0), bits(1.0)]);
    assert_eq!(windows.returns.values(), vec![bits(0.1), bits(0.0)]);
    assert_eq!(windows.last_update_ns, 3);
    // Two ticks are too few for an indicator.
    assert_eq!((windows.get_rsi(), windows.get_macd()), (bits(0.0), bits(0.0)));
    assert_eq!(registry.window_of("B").unwrap().prices.len(), 0);
    for i in 0..30 {
        registry.observe("B", bits(10.0), bits(1.0), bits(0.0), i);
    }
    registry.set_indicators("B", bits(60.0), bits(1.0));
    let windows = registry.window_of("B").unwrap();
    assert_eq!((windows.get_rsi(), windows.get_macd()), (bits(60.0), bits(1.0)));
    // Registered again, a symbol starts anew.
    registry.register_symbol("A", Vec::new());
    assert_eq!(registry.window_of("A").unwrap().prices.len(), 0);
    assert_eq!(registry.window_of("B").unwrap().prices.len(), 30);
}

#[test]
fn test_symbol_to_u64() {
    let id1 = symbol_to_u64("BTCUSDT");
    let id2 = symbol_to_u64("BTCUSDT");
    let id3 = symbol_to_u64("ETHUSDT");

    assert_eq!(id1, id2);
    assert_ne!(id1, id3);
    assert_eq!(symbol_to_u64("AB"), 0x4241);
    assert_eq!(symbol_to_u64("ABCDEFGHIJ"), symbol_to_u64("ABCDEFGHXX"));
    assert_eq!(symbol_to_u64(""), 0);
}

#[test]
fn test_feature_store_basic() {
    let mut store = FeatureStore::new();

    store.register_symbol("BTCUSDT");
    store.set_feature("BTCUSDT", "rsi", FeatureType::Technical, bits(70.0), 0.7f32.to_bits(), 1);

    let feature = store.get_feature("BTCUSDT", "rsi").unwrap();
    assert_eq!(f64::from_bits(feature.value), 70.0);
    assert_eq!(f32::from_bits(feature.normalized), 0.7);
    assert_eq!(feature.feature_type, FeatureType::Technical);
}

#[test]
fn test_feature_key_hash() {
    let key1 = FeatureKey::new("BTCUSDT", "rsi", FeatureType::Technical);
    let key2 = FeatureKey::new("BTCUSDT", "rsi", FeatureType::Technical);

    assert_eq!(key1, key2);
    assert_eq!(key1.hash(), key2.hash());
    assert_ne!(key1.hash(), FeatureKey::new("BTCUSDT", "rsi", FeatureType::Momentum).hash());
    assert_ne!(key1.hash(), FeatureKey::new("BTCUSDTr", "si", FeatureType::Technical).hash());
}

#[test]
fn features_are_exported_by_name() {
    let mut store = FeatureStore::new();
    store.register_symbol("A");
    for (i, name) in ["zeta", "alpha", "beta"].iter().enumerate() {
        store.set_feature("A", name, FeatureType::OnChain, i as u64, 10 + i as u32, 100);
    }
    assert_eq!(store.export_features("A"), Some(vec![11, 12, 10]));
    assert_eq!(store.export_features("B"), None);
    assert_eq!(store.get_symbol_feature_count("A"), 3);
    assert_eq!(store.get_symbol_feature_count("B"), 0);
    assert_eq!(store.get_features_vector("A", &["beta", "none"]), vec![12, 0]);
    assert_eq!(store.total_features(), 3);
    assert_eq!(store.last_update_ns(), 100);
    assert_eq!(store.get_symbols(), vec!["A".to_string()]);
    assert_eq!(FeatureEntry::default().quality, 1.0f32.to_bits());
    assert_eq!(FeatureType::OrderFlow.as_str(), "order_flow");
}

#[test]
fn stale_features_are_removed() {
    let mut store = FeatureStore::new();
    store.set_feature("A", "old", FeatureType::Sentiment, 1, 1, 10);
    store.set_feature("A", "new", FeatureType::Sentiment, 2, 2, 90);
    store.set_feature("B", "old", FeatureType::Sentiment, 3, 3, 49);
    assert_eq!(store.remove_stale_features(50, 100), 2);
    assert!(store.get_feature("A", "old").is_none());
    assert!(store.get_feature("B", "old").is_none());
    assert_eq!(store.get_feature("A", "new").unwrap().value, 2);
    assert_eq!(store.total_features(), 1);
}

/// The mean of what a buffer holds.
fn mean(buffer: &RingBuffer) -> f64 {
    let sum = buffer.values().iter().map(|&v| num(v)).sum::<f64>();
    num(buffer.mean(bits(sum / buffer.len() as f64)))
}

/// The standard deviation of what a buffer holds.
fn std_dev(buffer: &RingBuffer) -> f64 {
    let squares = buffer.values().iter().map(|&v| num(v) * num(v)).sum::<f64>() / buffer.len() as f64;
    let variance = num(buffer.variance(bits(squares - mean(buffer).powi(2))));
    num(buffer.std_dev(bits(variance.sqrt())))
}

#[test]
fn test_feature_normalization() {
    let min_max = |value: f64, min: f64, max: f64| {
        let share = ((value - min) / (max - min)) as f32;
        f32::from_bits(normalization::min_max(bits(min), bits(max), share.to_bits()))
    };
    let z_score = |value: f64, mean: f64, std_dev: f64| {
        let distance = ((value - mean) / std_dev) as f32;
        f32::from_bits(normalization::z_score(bits(std_dev), distance.to_bits()))
    };
    let sigmoid = |value: f64| ((1.0 / (1.0 + (-value).exp())) * 2.0 - 1.0) as f32;

    assert_eq!(min_max(50.0, 0.0, 100.0), 0.5);
    assert_eq!(z_score(100.0, 100.0, 10.0), 0.0);
    assert!(sigmoid(0.0).abs() < 0.001);
    assert!((0.0f64.tanh() as f32).abs() < 0.001);
    assert_eq!(min_max(50.0, 7.0, 7.0), 0.0);
    assert_eq!(min_max(50.0, 0.0, -0.0), 0.0);
    assert_eq!(z_score(3.0, 1.0, 0.0), 0.0);
    assert_eq!(z_score(3.0, 1.0, 4.0), 0.5);
}

#[test]
fn moments_need_values() {
    let mut buffer = RingBuffer::new(10);
    assert_eq!((mean(&buffer), std_dev(&buffer)), (0.0, 0.0));
    buffer.push(bits(3.0));
    assert_eq!((mean(&buffer), std_dev(&buffer)), (3.0, 0.0));
    buffer.push(bits(5.0));
    assert_eq!((mean(&buffer), std_dev(&buffer)), (4.0, 1.0));
    assert_eq!(buffer.skewness(bits(1.0), bits(2.0)), None);
    buffer.push(bits(4.0));
    assert_eq!(buffer.skewness(bits(1.0), bits(2.0)), Some(bits(2.0)));
    assert_eq!(buffer.skewness(bits(0.0), bits(2.0)), Some(bits(0.0)));
    assert_eq!(buffer.kurtosis(bits(1.0), bits(2.0)), None);
    buffer.push(bits(4.0));
    assert_eq!(buffer.kurtosis(bits(1.0), bits(2.0)), Some(bits(2.0)));
    assert_eq!(buffer.kurtosis(bits(-0.0), bits(2.0)), Some(bits(0.0)));
}

#[test]
fn test_ring_buffer_push_and_mean() {
    let mut buffer = RingBuffer::new(10);

    for i in 1..=5 {
        buffer.push(bits(i as f64));
    }

    assert_eq!(buffer.len(), 5);
    assert!(!buffer.is_full());
    assert_eq!(mean(&buffer), 3.0);
}

#[test]
fn test_ring_buffer_wraparound() {
    let mut buffer = RingBuffer::new(5);

    for i in 1..=10 {
        buffer.push(bits(i as f64));
    }

    assert_eq!(buffer.len(), 5);
    assert!(buffer.is_full());
    assert_eq!(mean(&buffer), 8.0);
}

#[test]
fn buffers_know_their_bounds() {
    let mut buffer = RingBuffer::new(4);
    assert_eq!(buffer.min(), 0);
    assert_eq!(buffer.max(), 0);
    for x in [3.0, -7.5, 2.0, f64::NAN, 1.0] {
        buffer.push(bits(x));
    }
    assert_eq!(f64::from_bits(buffer.min()), -7.5);
    assert_eq!(f64::from_bits(buffer.max()), 2.0);
    assert_eq!(f64::from_bits(buffer.latest()), 1.0);
    assert_eq!(buffer.get_offset(2), Some(bits(2.0)));
    assert_eq!(buffer.get_offset(4), None);
    buffer.clear();
    assert!(buffer.is_empty());
    assert_eq!(RingBuffer::new(1 << 20).capacity, 1024);
}

#[test]
fn test_rolling_features() {
    let mut features = RollingFeatures::new(50);

    for i in 1..=30 {
        let last = f64::from_bits(features.get_price());
        let price = 100.0 + (i as f64 * 0.5);
        let change = (price - last) / last;
        features.update(bits(price), bits(1000.0 + (i as f64 * 10.0)), bits(change), i as u64);
    }

    assert!(f64::from_bits(features.get_price()) > 100.0);
    assert!(f64::from_bits(features.get_volume()) > 1000.0);

    let inputs = features.rsi_inputs().unwrap();
    assert_eq!(inputs.gains.len(), 14);
    assert!(inputs.losses.is_empty());
    assert_eq!(features.ema_inputs(12).unwrap().len(), 12);
    assert!(features.ema_inputs(31).is_none());
    features.set_indicators(bits(100.0), bits(1.5));
    assert_eq!(features.get_rsi(), bits(100.0));
    assert_eq!(features.get_macd(), bits(1.5));
    assert_eq!(features.last_update_ns, 30);
    // The first price has no return.
    assert_eq!(features.returns.get_offset(29), Some(bits(0.0)));
    assert_eq!(num(RollingFeatures::relative_strength(bits(0.0), bits(f64::NAN))), 100.0);
    assert_eq!(num(RollingFeatures::relative_strength(bits(2.0), bits(1.5))), 1.5);
    let terms = features.vwap_terms();
    assert_eq!((terms.len(), terms[0]), (30, (bits(115.0), bits(1300.0))));
    assert_eq!(num(features.get_vwap(bits(7.0), bits(110.0))), 110.0);
    assert_eq!(num(features.get_vwap(bits(0.0), bits(110.0))), 0.0);
    assert_eq!(num(RollingFeatures::new(5).get_vwap(bits(7.0), bits(110.0))), 0.0);
    assert_eq!(num(features.get_volatility(bits(0.25))), 0.25);
    assert_eq!(num(features.get_momentum(bits(0.5))), 0.5);
    assert_eq!(num(RollingFeatures::new(5).get_momentum(bits(0.5))), 0.0);
    let parts = ExportParts {
        rsi: 1,
        macd: 2,
        volatility: 3,
        momentum: 4,
        price_over_vwap: 5,
        mean_price: 6,
        price_deviation: 7,
        mean_volume: 8,
        skewness: Some(9),
        kurtosis: None,
    };
    assert_eq!(RollingFeatures::export_features(parts), vec![1, 2, 3, 4, 5, 6, 7, 8, 9, 0]);
}

/// Adds a price with its logarithmic return.
fn observe(extractor: &mut TemporalAttentionExtractor, price: f64, volume: f64) {
    let ret = match extractor.price_window().last().map(|&p| f64::from_bits(p)) {
        Some(last) if last > 0.0 => (price / last).ln(),
        _ => 0.0,
    };
    extractor.add_observation(bits(price), bits(volume), bits(ret));
}

#[test]
fn test_feature_engine_basic() {
    let config = FeatureEngineConfig {
        cross_sectional_config: CrossSectionalConfig {
            momentum_lookback: 20,
            mean_reversion_lookback: 20,
            min_assets: 3,
        },
        temporal_config: TemporalAttentionConfig { max_sequence_length: 100, ..Default::default() },
        ..Default::default()
    };
    let mut engine = FeatureEngine::new(config);

    engine.register_asset(1);
    engine.register_asset(2);
    engine.register_asset(3);

    for i in 0..50 {
        tick(&mut engine, 1, 100.0 + i as f64, 1000.0);
        tick(&mut engine, 2, 100.0 - i as f64 * 0.5, 1500.0);
        tick(&mut engine, 3, 100.0 + (i % 10) as f64, 1200.0);
    }

    assert!(engine.is_ready());
    assert_eq!(engine.asset_count(), 3);

    let features = engine.get_features(1, &feature_figures(&engine, 0));
    assert!(features.is_some());
    let f = features.unwrap();
    assert!(num(f.momentum_rank) > 0.5);
    assert!(num(f.momentum_z) > 0.0 && num(f.volatility) > 0.0);
    assert!(num(f.attention_price) > 100.0 && num(f.attention_price) < 149.0);
    assert_eq!(f.multi_scale_features.len(), 4);
    assert!(engine.get_features(9, &feature_figures(&engine, 0)).is_none());
    let figures = all_figures(&engine);
    let all = engine.get_all_features(&figures);
    assert_eq!(all.iter().map(|f| f.asset_id).collect::<Vec<_>>(), vec![1, 2, 3]);
    assert_eq!(all[0].to_vector(), f.to_vector());
    engine.clear();
    assert_eq!((engine.is_ready(), engine.asset_count()), (false, 3));
    let cleared = engine.get_features(1, &feature_figures(&engine, 0)).unwrap();
    assert_eq!(cleared.to_vector(), vec![0; 12]);
}

#[test]
fn test_multi_scale_features() {
    let config = TemporalAttentionConfig::default();
    let mut extractor = TemporalAttentionExtractor::new(config);

    for i in 0..100 {
        observe(&mut extractor, 100.0 + i as f64, 1000.0);
    }

    let features = extractor.get_multi_scale_features(&scales(&extractor));
    assert_eq!(features.len(), config.num_time_scales);

    let features: Vec<f64> = features.into_iter().map(num).collect();
    for i in 1..features.len() {
        assert!(features[i] <= features[i - 1] || (features[i] - features[i - 1]).abs() < 1.0);
    }
}

/// Bytes that the windows of an extractor have taken.
fn memory(extractor: &TemporalAttentionExtractor) -> usize {
    (extractor.prices.capacity() + extractor.volumes.capacity() + extractor.returns.capacity()) * 8
}

#[test]
fn temporal_test_memory_bound() {
    let config = TemporalAttentionConfig { max_sequence_length: 1000, ..Default::default() };
    let extractor = TemporalAttentionExtractor::new(config);

    assert!(memory(&extractor) < 6_500_000_000);
}

#[test]
fn eng_mod_test_memory_bound() {
    let mut engine = FeatureEngine::new(FeatureEngineConfig { max_assets: 50, ..Default::default() });

    for id in 0..50 {
        engine.register_asset(id);
        for i in 0..100 {
            tick(&mut engine, id, 100.0 + i as f64, 1000.0);
        }
    }

    let ranked = engine.cross_sectional_ranker().asset_count() * std::mem::size_of::<RollingStats>();
    let mem = ranked + engine.temporal_extractors.iter().map(memory).sum::<usize>();
    assert!(mem < 6_500_000_000);
}
