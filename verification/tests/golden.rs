// The reference scenario: a delay of 7.816 samples fed the first 101
// samples of a sum of three sinusoids (600 Hz, 1200 Hz and 2562 Hz at a
// 48 kHz sample rate, each starting at phase 0), against the sequence the
// reference arithmetic emits, to a tolerance of 1e-9.

use fractional_delay::line::FractionalDelay;

const SUMMED_INPUTS: [f64; 101] = [
    0.0,
    0.5640074333893328,
    1.087009495463846,
    1.5321843660229342,
    1.8706197441445496,
    2.084174429477451,
    2.1671646180229334,
    2.126694369470621,
    1.981599999626528,
    1.7601316615565696,
    1.4966350213652417,
    1.227606176042277,
    0.9875615469922366,
    0.805183802308751,
    0.7001727926159435,
    0.6811506344169168,
    0.7448513699397915,
    0.8766813299724362,
    1.0525825328017948,
    1.2419853296552728,
    1.411514358605109,
    1.529027323361199,
    1.567528605399596,
    1.5085134365839274,
    1.3443617814460147,
    1.0795071373025311,
    0.7302423345129117,
    0.32317684827082593,
    -0.10748888054573406,
    -0.5235739161744195,
    -0.8870142817154911,
    -1.1639941941761092,
    -1.3286529028359544,
    -1.365954977934434,
    -1.2734038262764882,
    -1.0614058336194083,
    -0.7522416623298378,
    -0.37775528120451424,
    0.023986863118738766,
    0.41270028423996086,
    0.7501110696304598,
    1.0039448408788412,
    1.1512393302406716,
    1.1806194063021274,
    1.093288984988035,
    0.9026370253881004,
    0.6325088313094288,
    0.3143420079306753,
    -0.016507831519121052,
    -0.32483714330667746,
    -0.5796027882593449,
    -0.7574191186446627,
    -0.8451524920746128,
    -0.8413237157250869,
    -0.756163022356857,
    -0.6103135749793905,
    -0.4323312897170861,
    -0.25526401362489864,
    -0.1126966983806823,
    -0.03470960274911583,
    -0.044206985201669546,
    -0.15403303254154255,
    -0.3652044329895723,
    -0.6664647643174347,
    -1.0352185669518648,
    -1.4397490208390926,
    -1.842479701556466,
    -2.2039239480820023,
    -2.486887976157,
    -2.6604646599018777,
    -2.7033771576794834,
    -2.6063028226363665,
    -2.372920202200791,
    -2.0195629050192645,
    -1.5735180227230974,
    -1.070156521090999,
    -0.5492119096963728,
    -0.05061723006785701,
    0.38964144519841726,
    0.7431995752924013,
    0.9921147013144899,
    1.1304888850955679,
    1.164740607017058,
    1.1125043744073677,
    1.0002891919178538,
    0.8601651276377008,
    0.7258550935266002,
    0.628674635435821,
    0.5937786934078316,
    0.6371391647502845,
    0.7635946171583631,
    0.9661928732562647,
    1.2269018899329205,
    1.5186106052264439,
    1.8081963846993718,
    2.0603155606346304,
    2.2414917383864807,
    2.3240421915430898,
    2.289399637315661,
    2.1304531109498717,
    1.8526401643540917,
];

const EXPECTED_OUTPUTS: [f64; 101] = [
    0.0,
    -0.0010545309594276971,
    -0.000611188337968542,
    -0.0033264485016435835,
    0.0011473087046980756,
    -0.00803255080988915,
    0.008269738517391184,
    -0.02324225101285267,
    0.0639013153346471,
    0.6786912084179739,
    1.1658743380947343,
    1.606682841281945,
    1.916187925649414,
    2.1096276174539237,
    2.167391336756853,
    2.1066279653644044,
    1.9457205568342812,
    1.7142834299054106,
    1.4473506966558407,
    1.1813636410529145,
    0.950056144332202,
    0.7806972559864507,
    0.6911089027676248,
    0.6877890693101661,
    0.7653463711675512,
    0.9073046664359413,
    1.0881826531546668,
    1.276610426834866,
    1.4391286778355883,
    1.5442395675787068,
    1.5662498889130239,
    1.4884700665664843,
    1.305404335712554,
    1.0236800515929765,
    0.6616049776994846,
    0.247394865293964,
    -0.1837374410868596,
    -0.593312371144485,
    -0.9437221162059112,
    -1.2023192614133824,
    -1.3450019192143972,
    -1.358896553581543,
    -1.2438389407583816,
    -1.0124863648311735,
    -0.6890454462693736,
    -0.3067531209957264,
    0.09561380599144381,
    0.4778177551461939,
    0.8023804770192607,
    1.038481369523717,
    1.1651074275130036,
    1.1731117938709557,
    1.0659594499631584,
    0.8590846268235961,
    0.577938770573496,
    0.25495318024092944,
    -0.07423941896828096,
    -0.37489846589350434,
    -0.6171243579163839,
    -0.779219780687404,
    -0.8500875873544625,
    -0.8303978576854314,
    -0.7323951828972098,
    -0.5783699827500449,
    -0.3979677157481642,
    -0.22464044217572446,
    -0.0916417640176575,
    -0.028017911246280554,
    -0.05504888323214651,
    -0.18354394230856355,
    -0.41230090792522817,
    -0.7279091734578536,
    -1.1059265913695404,
    -1.5133070350653115,
    -1.9118156382060028,
    -2.2620580225674853,
    -2.5276806021316127,
    -2.679279026403955,
    -2.6975832544169176,
    -2.575567157200411,
    -2.3192491122158976,
    -1.9470945985486414,
    -1.4880862531295458,
    -0.9786740290141539,
    -0.45894163944820227,
    0.031588358805233474,
    0.4580492654876742,
    0.7937752096782065,
    1.0229088760224525,
    1.1417894552106505,
    1.1589745672509493,
    1.09390227814026,
    0.9743508155780629,
    0.8329873098660627,
    0.7033979488655875,
    0.6160490911837219,
    0.594635776697152,
    0.6532299593635938,
    0.7945506024183443,
    1.0095515952462832,
    1.2783753623595124,
];

fn tables(delay: f64) -> (Vec<u64>, Vec<u64>) {
    let whole = delay.floor() as usize;
    let frac = delay - delay.floor();
    let n = whole * 2 + 1;
    let center = n / 2;
    let mut sines: Vec<u64> = Vec::with_capacity(n);
    let mut cosines: Vec<u64> = Vec::with_capacity(n);
    for t in 0..n {
        let x = t as f64 - frac;
        let d = x - center as f64;
        sines.push((std::f64::consts::PI * d).sin().to_bits());
        cosines.push((2.0 * std::f64::consts::PI * (x + 0.5) / n as f64).cos().to_bits());
    }
    (sines, cosines)
}

#[test]
fn golden_three_tone_scenario() {
    let delay = 7.816f64;
    let (sines, cosines) = tables(delay);
    let mut line = FractionalDelay::new(delay.to_bits(), &sines, &cosines).unwrap();
    for i in 0..101 {
        let out = f64::from_bits(line.process(SUMMED_INPUTS[i].to_bits()));
        let want = EXPECTED_OUTPUTS[i];
        assert!(
            (out - want).abs() <= 1e-9,
            "sample {i}: got {out}, want {want}"
        );
    }
}
