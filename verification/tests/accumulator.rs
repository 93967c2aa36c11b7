use distaff::accumulator::acc64::{
    ALPHA, ARK, DIGEST_SIZE, INV_ALPHA, INV_MDS, MDS, NUM_ROUNDS, STATE_WIDTH,
};
use distaff::math::fft::{
    eval_fft_twiddles, get_inv_twiddles, get_twiddles, interpolate_fft_twiddles,
};
use distaff::math::field64::F64;
use distaff::math::polynom;

const M64: u64 = 18446743880436023297;

fn sample_state() -> [u64; 12] {
    [
        1,
        2,
        3,
        M64 - 1,
        0,
        1 << 63,
        12345678901234567890,
        987654321,
        M64 - 2,
        42,
        18446743880436023296,
        7,
    ]
}

#[test]
fn parameters() {
    assert_eq!(16, NUM_ROUNDS);
    assert_eq!(12, STATE_WIDTH);
    assert_eq!(4, DIGEST_SIZE);
    assert_eq!(NUM_ROUNDS, F64::NUM_ROUNDS);
    assert_eq!(STATE_WIDTH, F64::STATE_WIDTH);
    assert_eq!(DIGEST_SIZE, F64::DIGEST_SIZE);
    assert_eq!(3, ALPHA);
    assert_eq!(12297829253624015531, INV_ALPHA);
    assert_eq!(144, MDS.len());
    assert_eq!(144, INV_MDS.len());
    assert_eq!(24, ARK.len());
    assert_eq!(14570791697008582876, MDS[0]);
    assert_eq!(7041439209722523945, INV_MDS[143]);
    assert_eq!(114590214580931143, ARK[0][0]);
    assert_eq!(1840352501975548911, ARK[23][15]);
    // alpha and its inverse multiply to one modulo the order of the group
    let product = u128::from(ALPHA) * u128::from(INV_ALPHA);
    assert_eq!(1, product % u128::from(M64 - 1));
}

#[test]
fn add_constants_adds_the_chosen_bank() {
    let mut state = [0u64; 12];
    F64::add_constants(&mut state, 0, 0);
    for i in 0..12 {
        assert_eq!(ARK[i][0], state[i]);
    }
    let mut state = [0u64; 12];
    F64::add_constants(&mut state, 5, 12);
    for i in 0..12 {
        assert_eq!(ARK[12 + i][5], state[i]);
    }
    let mut state = sample_state();
    F64::add_constants(&mut state, 15, 12);
    for i in 0..12 {
        let expected = (u128::from(sample_state()[i]) + u128::from(ARK[12 + i][15]))
            % u128::from(M64);
        assert_eq!(expected, u128::from(state[i]));
    }
    assert_eq!(990026313300730204, {
        let mut state = [1u64; 12];
        F64::add_constants(&mut state, 0, 0);
        state[1]
    });
}

#[test]
fn add_constants_leaves_the_rest_of_a_longer_state() {
    let mut state = [5u64; 14];
    F64::add_constants(&mut state, 3, 0);
    assert_eq!(F64::add(5, ARK[11][3]), state[11]);
    assert_eq!(5, state[12]);
    assert_eq!(5, state[13]);
}

#[test]
fn sbox_cubes() {
    let mut state = sample_state();
    F64::apply_sbox(&mut state);
    assert_eq!(1, state[0]);
    assert_eq!(8, state[1]);
    assert_eq!(27, state[2]);
    assert_eq!(M64 - 1, state[3]);
    assert_eq!(0, state[4]);
    for i in 0..12 {
        let x = sample_state()[i];
        assert_eq!(F64::mul(F64::mul(x, x), x), state[i]);
    }
}

#[test]
fn inverse_sbox_undoes_sbox() {
    let mut state = sample_state();
    F64::apply_sbox(&mut state);
    F64::apply_inv_sbox(&mut state);
    assert_eq!(sample_state(), state);

    let mut state = sample_state();
    F64::apply_inv_sbox(&mut state);
    for i in 0..12 {
        assert_eq!(F64::exp(sample_state()[i], INV_ALPHA), state[i]);
    }
    F64::apply_sbox(&mut state);
    assert_eq!(sample_state(), state);
}

#[test]
fn mds_multiplies_by_the_matrix() {
    // a unit vector picks a column
    for k in 0..12 {
        let mut state = [0u64; 12];
        state[k] = 1;
        F64::apply_mds(&mut state);
        for i in 0..12 {
            assert_eq!(MDS[i * 12 + k], state[i]);
        }
        let mut state = [0u64; 12];
        state[k] = 1;
        F64::apply_inv_mds(&mut state);
        for i in 0..12 {
            assert_eq!(INV_MDS[i * 12 + k], state[i]);
        }
    }
    // the general case, against a sum computed in wide integers
    let mut state = sample_state();
    F64::apply_mds(&mut state);
    for i in 0..12 {
        let mut sum: u128 = 0;
        for j in 0..12 {
            let term = u128::from(MDS[i * 12 + j]) * u128::from(sample_state()[j]);
            sum = (sum + term % u128::from(M64)) % u128::from(M64);
        }
        assert_eq!(sum, u128::from(state[i]));
    }
}

#[test]
fn inverse_mds_undoes_mds() {
    let mut state = sample_state();
    F64::apply_mds(&mut state);
    assert_ne!(sample_state(), state);
    F64::apply_inv_mds(&mut state);
    assert_eq!(sample_state(), state);

    let mut state = sample_state();
    F64::apply_inv_mds(&mut state);
    F64::apply_mds(&mut state);
    assert_eq!(sample_state(), state);
}

#[test]
fn polynomial_evaluation() {
    // 3 + 2x + x^2
    let p = [3u64, 2, 1];
    assert_eq!(3, polynom::eval(&p, 0));
    assert_eq!(6, polynom::eval(&p, 1));
    assert_eq!(11, polynom::eval(&p, 2));
    assert_eq!(2, polynom::eval(&p, M64 - 1));
    assert_eq!(0, polynom::eval(&[], 5));
}

#[test]
fn twiddles_are_the_powers_of_the_root() {
    let root = F64::get_root_of_unity(16);
    let twiddles = get_twiddles(root, 16);
    assert_eq!(8, twiddles.len());
    for i in 0..8 {
        assert_eq!(F64::exp(root, i as u64), twiddles[i]);
    }
    let inv_twiddles = get_inv_twiddles(root, 16);
    assert_eq!(8, inv_twiddles.len());
    for i in 0..8 {
        assert_eq!(1, F64::mul(twiddles[i], inv_twiddles[i]));
    }
    assert_eq!(vec![1], get_twiddles(M64 - 1, 2));
}

#[test]
fn fft_evaluates_and_interpolates() {
    let root = F64::get_root_of_unity(8);
    let twiddles = get_twiddles(root, 8);
    let inv_twiddles = get_inv_twiddles(root, 8);
    let p: Vec<u64> = vec![5, 0, M64 - 1, 77, 1 << 40, 3, 0, 9];
    let values = eval_fft_twiddles(&p, &twiddles);
    assert_eq!(8, values.len());
    for i in 0..8 {
        assert_eq!(polynom::eval(&p, F64::exp(root, i as u64)), values[i]);
    }
    let back = interpolate_fft_twiddles(&values, &inv_twiddles);
    assert_eq!(p, back);
    // each coefficient is an eighth of the value of the values at a power of the inverse root
    let eighth = F64::inv(8);
    let inverse_root = F64::inv(root);
    for k in 0..8 {
        let at = polynom::eval(&values, F64::exp(inverse_root, k as u64));
        assert_eq!(F64::mul(eighth, at), back[k]);
    }

    // the smallest domain
    let twiddles = get_twiddles(M64 - 1, 2);
    let values = eval_fft_twiddles(&vec![3, 4], &twiddles);
    assert_eq!(vec![7, M64 - 1], values);
    let back = interpolate_fft_twiddles(&values, &get_inv_twiddles(M64 - 1, 2));
    assert_eq!(vec![3, 4], back);
}

#[test]
fn extended_constants_reproduce_the_table() {
    let factor = 8;
    let (polys, evaluations) = F64::get_extended_constants(factor);
    assert_eq!(24, polys.len());
    assert_eq!(24, evaluations.len());
    let root = F64::get_root_of_unity(16);
    let domain_root = F64::get_root_of_unity(16 * factor);
    for r in 0..24 {
        assert_eq!(16, polys[r].len());
        assert_eq!(16 * factor, evaluations[r].len());
        // the coefficient form gives the constants back on the domain of sixteen points
        for i in 0..16 {
            assert_eq!(ARK[r][i], polynom::eval(&polys[r], F64::exp(root, i as u64)));
        }
        // the evaluation form is the same polynomial on the larger domain
        for j in 0..16 * factor {
            let x = F64::exp(domain_root, j as u64);
            assert_eq!(polynom::eval(&polys[r], x), evaluations[r][j]);
        }
        // and it agrees with the constants where the two domains meet
        for i in 0..16 {
            assert_eq!(ARK[r][i], evaluations[r][i * factor]);
        }
    }
}

#[test]
fn extended_constants_without_extension() {
    let (polys, evaluations) = F64::get_extended_constants(1);
    for r in 0..24 {
        assert_eq!(16, polys[r].len());
        assert_eq!(ARK[r].to_vec(), evaluations[r]);
    }
}
