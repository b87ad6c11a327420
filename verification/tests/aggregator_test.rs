use aqt_stock::calculates::base_calculate::BaseCalculate;
use aqt_stock::calculates::market_calculate::{MarketCalculate, MarketTemperature};
use aqt_stock::calculates::technicals_calculate::TechnicalsCalculate;
use aqt_stock::computes::calculate::{Calculate, Calculator};
use aqt_stock::computes::defult_rules::{CulRules, DefultRules};
use aqt_stock::indicators::tradingview_technicals::{TechnicalScores, TradingTechnicals};

#[test]
fn default_rule_thresholds() {
    let rules = DefultRules {};
    assert_eq!(rules.cul_rules(vec![1, 1, 1]), 1);
    assert_eq!(rules.cul_rules(vec![3]), 1);
    assert_eq!(rules.cul_rules(vec![2, 2, -1]), 1);
    assert_eq!(rules.cul_rules(vec![-1, -1, -1]), -1);
    assert_eq!(rules.cul_rules(vec![-3]), -1);
    assert_eq!(rules.cul_rules(vec![1, 1]), 0);
    assert_eq!(rules.cul_rules(vec![-2, 1, 0]), 0);
    assert_eq!(rules.cul_rules(vec![]), 0);
}

#[test]
fn default_rule_on_pseudo_random_vectors() {
    // A small linear congruential generator keeps the vectors
    // reproducible.
    let mut seed: u64 = 42;
    let mut next = move || {
        seed = seed.wrapping_mul(6364136223846793005).wrapping_add(1442695040888963407);
        ((seed >> 33) % 11) as i64 - 5
    };
    let rules = DefultRules {};
    for len in 0..40 {
        let v: Vec<i64> = (0..len).map(|_| next()).collect();
        let sum: i64 = v.iter().sum();
        let expected = if sum >= 3 {
            1
        } else if sum <= -3 {
            -1
        } else {
            0
        };
        assert_eq!(rules.cul_rules(v), expected);
    }
}

#[test]
fn market_temperature_bands() {
    let sig = |t: i32, v: i32, s: i32| {
        MarketCalculate { market: MarketTemperature { temperature: t, valuation: v, sentiment: s } }
            .calculate()
    };
    assert_eq!(sig(40, 40, 80), -2);
    assert_eq!(sig(40, 40, 20), 2);
    assert_eq!(sig(20, 40, 40), 2);
    assert_eq!(sig(60, 40, 40), -2);
    assert_eq!(sig(40, 60, 40), -2);
    assert_eq!(sig(40, 20, 40), 2);
    assert_eq!(sig(40, 40, 40), 0);
    // First match wins: hot sentiment beats a cold temperature.
    assert_eq!(sig(20, 40, 80), -2);
}

#[test]
fn technicals_grades_and_vote() {
    let t = |summary: i64, ma: i64, osc: i64| TechnicalsCalculate {
        technicals: TradingTechnicals {
            values: Some(TechnicalScores { summary, ma, oscillator: osc }),
        },
    };
    assert_eq!(t(8000, 0, 0).calculate(), 3);
    assert_eq!(t(6000, 0, 0).calculate(), 3);
    assert_eq!(t(-8000, 0, 0).calculate(), -3);
    assert_eq!(t(0, -6000, 0).calculate(), -3);
    assert_eq!(t(0, 0, 0).calculate(), 0);
    // The boundary score 0.7 grades to neutral.
    assert_eq!(t(7000, 0, 0).calculate(), 0);
    assert_eq!(
        TechnicalsCalculate { technicals: TradingTechnicals { values: None } }.calculate(),
        0
    );
}

#[test]
fn aggregator_sums_market_and_technicals() {
    let rules = DefultRules {};
    let mut calculate = Calculate::new(rules.create());
    calculate.add_calculator(Calculator::Market(MarketCalculate {
        market: MarketTemperature { temperature: 20, valuation: 40, sentiment: 40 },
    }));
    calculate.add_calculator(Calculator::Technicals(TechnicalsCalculate {
        technicals: TradingTechnicals {
            values: Some(TechnicalScores { summary: 8000, ma: 0, oscillator: 0 }),
        },
    }));
    // 2 + 3 = 5 >= 3: buy.
    assert_eq!(calculate.execute_rules(), 1);

    let mut bearish = Calculate::new(DefultRules {}.create());
    bearish.add_calculator(Calculator::Market(MarketCalculate {
        market: MarketTemperature { temperature: 60, valuation: 40, sentiment: 40 },
    }));
    bearish.add_calculator(Calculator::Technicals(TechnicalsCalculate {
        technicals: TradingTechnicals {
            values: Some(TechnicalScores { summary: -8000, ma: 0, oscillator: 0 }),
        },
    }));
    // -2 + -3 = -5 <= -3: sell.
    assert_eq!(bearish.execute_rules(), -1);

    let mut names = Calculate::new(DefultRules {}.create());
    names.add_calculator(Calculator::Market(MarketCalculate {
        market: MarketTemperature { temperature: 40, valuation: 40, sentiment: 40 },
    }));
    assert_eq!(names.execute_rules(), 0);
}

#[test]
fn calculator_names() {
    let market = MarketCalculate {
        market: MarketTemperature { temperature: 40, valuation: 40, sentiment: 40 },
    };
    assert_eq!(market.get_name(), "Market Temperature");
    assert_eq!(market.get_description(), "Market Temperature indicator");
    let techs = TechnicalsCalculate { technicals: TradingTechnicals { values: None } };
    assert_eq!(techs.get_name(), "Tradingview Technicals");
}
