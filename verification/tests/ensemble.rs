use chaos_theory::chaos_data::ChaosData;
use chaos_theory::data_variants::{
    check_dimensions, ChaosDataVariant, ChaosDataVec, ChaosError, InitialDistributionConfig,
};
use chaos_theory::configs::zaslavskii_mu;
use chaos_theory::distribution::{
    are_admissible, data_gen_from_distribution, eye, fixed, freedom_is_admissible, geomspace,
    geomspace_check, linspace, no_check, triangular_check, Cauchy, Eye, Fixed, Geomspace,
    InitialDistributionVariant, Linspace, Logspace, Mesh, Normal, RandomVariate, Triangular,
    Uniform,
};
use chaos_theory::labels::ChaosDescription;
use chaos_theory::mesh::{hyper_mesh_2, hyper_mesh_grid};
use chaos_theory::scalar::Scalar;
use chaos_theory::states::{
    DistributionDimensions, FractalDimensions, StateIndex, ValidStateCheck,
};
use rand::thread_rng;
use rand_distr::Distribution;

#[derive(Clone, Copy, Debug, PartialEq)]
struct Float(f64);

/// The number as the library holds it: of all the representations of
/// not-a-number, one is settled on.
fn settled(x: f64) -> Float {
    if x.is_nan() {
        Float(f64::NAN)
    } else {
        Float(x)
    }
}

impl Scalar for Float {
    fn zero() -> Self {
        Float(0.0)
    }
    fn one() -> Self {
        Float(1.0)
    }
    fn epsilon() -> Self {
        Float(f64::EPSILON)
    }
    fn from_i16(n: i16) -> Self {
        Float(n as f64)
    }
    fn from_usize(n: usize) -> Self {
        Float(n as f64)
    }
    fn plus(self, rhs: Self) -> Self {
        settled(self.0 + rhs.0)
    }
    fn minus(self, rhs: Self) -> Self {
        settled(self.0 - rhs.0)
    }
    fn times(self, rhs: Self) -> Self {
        settled(self.0 * rhs.0)
    }
    fn over(self, rhs: Self) -> Self {
        settled(self.0 / rhs.0)
    }
    fn neg(self) -> Self {
        settled(-self.0)
    }
    fn abs(self) -> Self {
        settled(self.0.abs())
    }
    fn sqrt(self) -> Self {
        settled(self.0.sqrt())
    }
    fn max(self, rhs: Self) -> Self {
        if rhs.0 > self.0 || self.0.is_nan() {
            settled(rhs.0)
        } else {
            self
        }
    }
    fn lt(self, rhs: Self) -> bool {
        self.0 < rhs.0
    }
    fn le(self, rhs: Self) -> bool {
        self.0 <= rhs.0
    }
    fn equals(self, rhs: Self) -> bool {
        self.0 == rhs.0
    }
    fn is_finite(self) -> bool {
        self.0.is_finite()
    }
    fn is_sign_negative(self) -> bool {
        self.0.is_sign_negative()
    }
    fn signum(self) -> Self {
        settled(self.0.signum())
    }
    fn two_decimals(self) -> String {
        format!("{:.2}", self.0)
    }
    fn ln(self) -> Self {
        settled(self.0.ln())
    }
    fn exp(self) -> Self {
        settled(self.0.exp())
    }
    fn powf(self, exponent: Self) -> Self {
        settled(self.0.powf(exponent.0))
    }
}

fn sample<D: Distribution<f64>>(distribution: D) -> Float {
    Float(distribution.sample(&mut thread_rng()))
}

impl RandomVariate for Float {
    fn draw(distribution: &InitialDistributionVariant<Self>) -> Self {
        match distribution {
            InitialDistributionVariant::Normal(d) => {
                sample(rand_distr::Normal::new(d.mean.0, d.std_dev.0).unwrap())
            }
            InitialDistributionVariant::Cauchy(d) => {
                sample(rand_distr::Cauchy::new(d.median.0, d.scale.0).unwrap())
            }
            InitialDistributionVariant::Uniform(d) => {
                sample(rand_distr::Uniform::new(d.low.0, d.high.0))
            }
            InitialDistributionVariant::Exponential(d) => {
                sample(rand_distr::Exp::new(d.lambda.0).unwrap())
            }
            InitialDistributionVariant::LogNormal(d) => {
                sample(rand_distr::LogNormal::new(d.mean.0, d.std_dev.0).unwrap())
            }
            InitialDistributionVariant::Poisson(d) => {
                sample(rand_distr::Poisson::new(d.mean.0).unwrap())
            }
            InitialDistributionVariant::Pareto(d) => {
                sample(rand_distr::Pareto::new(d.scale.0, d.shape.0).unwrap())
            }
            InitialDistributionVariant::StudentT(d) => {
                sample(rand_distr::StudentT::new(d.dof.0).unwrap())
            }
            InitialDistributionVariant::Weibull(d) => {
                sample(rand_distr::Weibull::new(d.lambda.0, d.k.0).unwrap())
            }
            InitialDistributionVariant::Gamma(d) => {
                sample(rand_distr::Gamma::new(d.shape.0, d.scale.0).unwrap())
            }
            InitialDistributionVariant::Beta(d) => {
                sample(rand_distr::Beta::new(d.alpha.0, d.beta.0).unwrap())
            }
            InitialDistributionVariant::Triangular(d) => {
                sample(rand_distr::Triangular::new(d.low.0, d.high.0, d.mode.0).unwrap())
            }
            InitialDistributionVariant::ChiSquared(d) => {
                sample(rand_distr::ChiSquared::new(d.dof.0).unwrap())
            }
            _ => panic!("the distribution is not probabilistic"),
        }
    }
}

type State1 = chaos_theory::vector::State1<Float>;
type State2 = chaos_theory::vector::State2<Float>;
type State3 = chaos_theory::vector::State3<Float>;

fn normal_default() -> InitialDistributionVariant<Float> {
    InitialDistributionVariant::default()
}

#[test]
fn test_initial_distributions() {
    let num_points = 3;
    let distr = vec![normal_default(), normal_default()];
    let chaos_data = ChaosData::<State2>::new(num_points, &distr);
    assert_eq!(chaos_data.data().len(), num_points);
    let distr = vec![
        InitialDistributionVariant::Cauchy(Cauchy {
            median: Float(1.0),
            scale: Float(1.0),
        }),
        InitialDistributionVariant::Cauchy(Cauchy {
            median: Float(1.0),
            scale: Float(1.0),
        }),
    ];
    let chaos_data = ChaosData::<State2>::new(num_points, &distr);
    assert_eq!(chaos_data.data().len(), num_points);
    let distr = vec![
        InitialDistributionVariant::Uniform(Uniform {
            low: Float(1.0),
            high: Float(5.0),
        }),
        InitialDistributionVariant::Uniform(Uniform {
            low: Float(1.0),
            high: Float(5.0),
        }),
    ];
    let chaos_data = ChaosData::<State2>::new(num_points, &distr);
    assert_eq!(chaos_data.data().len(), num_points);
    let distr = vec![
        InitialDistributionVariant::Fixed(Fixed { value: Float(1.0) }),
        InitialDistributionVariant::Fixed(Fixed { value: Float(2.0) }),
    ];
    let chaos_data = ChaosData::<State2>::new(num_points, &distr);
    assert_eq!(
        chaos_data.data(),
        &[
            Some(State2::new(Float(1.0), Float(2.0))),
            Some(State2::new(Float(1.0), Float(2.0))),
            Some(State2::new(Float(1.0), Float(2.0)))
        ]
    );
    let distr = vec![
        InitialDistributionVariant::Linspace(Linspace {
            low: Float(0.0),
            high: Float(1.0),
        }),
        InitialDistributionVariant::Linspace(Linspace {
            low: Float(0.0),
            high: Float(1.0),
        }),
    ];
    let chaos_data = ChaosData::<State2>::new(num_points, &distr);
    assert_eq!(
        chaos_data.data(),
        &[
            Some(State2::new(Float(0.0), Float(0.0))),
            Some(State2::new(Float(0.5), Float(0.5))),
            Some(State2::new(Float(1.0), Float(1.0)))
        ]
    );
}

#[test]
fn test_chaos_data_from_distributions() {
    let distr_fixed = InitialDistributionVariant::Fixed(Fixed { value: Float(2.0) });
    let distr_lin = InitialDistributionVariant::Linspace(Linspace {
        low: Float(0.0),
        high: Float(1.0),
    });
    let distributions = vec![distr_fixed, distr_lin];
    let chaos_data = ChaosData::<State2>::new(3, &distributions);
    assert_eq!(
        chaos_data.data(),
        &[
            Some(State2::new(Float(2.0), Float(0.0))),
            Some(State2::new(Float(2.0), Float(0.5))),
            Some(State2::new(Float(2.0), Float(1.0)))
        ]
    );
}

#[test]
fn test_mesh_distribution() {
    let num_points = 4;
    let distr = vec![InitialDistributionVariant::Mesh(Mesh {
        start: Float(0.0),
        end: Float(1.0),
    })];
    let chaos_data = ChaosData::<State1>::new(num_points, &distr);
    assert_eq!(
        chaos_data.data(),
        &[
            Some(State1::new(Float(0.0))),
            Some(State1::new(Float(1.0 / 3.0))),
            Some(State1::new(Float(2.0 / 3.0))),
            Some(State1::new(Float(1.0)))
        ]
    );
}

#[test]
fn test_geomspace_distribution() {
    let num_points = 3;
    let distr = vec![InitialDistributionVariant::Geomspace(Geomspace {
        start: Float(1.0),
        end: Float(16.0),
    })];
    let chaos_data = ChaosData::<State1>::new(num_points, &distr);
    assert_eq!(
        chaos_data.data(),
        &[
            Some(State1::new(Float(1.0))),
            Some(State1::new(Float(4.0))),
            Some(State1::new(Float(15.999999999999998)))
        ]
    );
}

#[test]
fn test_eye_distribution() {
    let num_points = 3;
    let distr = vec![
        InitialDistributionVariant::Eye(Eye { value: Float(1.0) }),
        InitialDistributionVariant::Eye(Eye { value: Float(2.0) }),
        InitialDistributionVariant::Eye(Eye { value: Float(3.0) }),
    ];
    let chaos_data = ChaosData::<State3>::new(num_points, &distr);
    assert_eq!(
        chaos_data.data(),
        &[
            Some(State3::new(Float(1.0), Float(0.0), Float(0.0))),
            Some(State3::new(Float(0.0), Float(2.0), Float(0.0))),
            Some(State3::new(Float(0.0), Float(0.0), Float(3.0)))
        ]
    );
}

#[test]
fn test_logspace_distribution() {
    let num_points = 3;
    let distr = vec![InitialDistributionVariant::Logspace(Logspace {
        start: Float(0.0),
        end: Float(3.0),
        base: Float(2.0),
    })];
    let chaos_data = ChaosData::<State1>::new(num_points, &distr);
    assert_eq!(
        chaos_data.data(),
        &[
            Some(State1::new(Float(1.0))),
            Some(State1::new(Float(2.8284271247461903))),
            Some(State1::new(Float(8.0)))
        ]
    );
}

#[test]
fn test_display() {
    let normal = Normal::<Float>::default();
    assert_eq!(
        normal.to_string(),
        String::from("Normal( mean=0.00 std_dev=1.00 )")
    );
    assert_eq!(
        normal.description(),
        String::from("The well-known Gaussian distribution: Normal( mean=0.00 std_dev=1.00 )")
    );
}

#[test]
fn empty_distributions_give_an_empty_ensemble() {
    let distr: Vec<InitialDistributionVariant<Float>> = Vec::new();
    let chaos_data = ChaosData::<State2>::new(5, &distr);
    assert_eq!(chaos_data.total_num_points(), 0);
    assert!(chaos_data.data_filtered().is_empty());
}

#[test]
fn two_meshes_span_a_grid() {
    let distr = vec![
        InitialDistributionVariant::Mesh(Mesh {
            start: Float(0.0),
            end: Float(1.0),
        }),
        InitialDistributionVariant::Mesh(Mesh {
            start: Float(10.0),
            end: Float(12.0),
        }),
    ];
    let chaos_data = ChaosData::<State2>::new(3, &distr);
    assert_eq!(chaos_data.total_num_points(), 9);
    let expected: Vec<Option<State2>> = [0.0, 0.5, 1.0]
        .iter()
        .flat_map(|x| {
            [10.0, 11.0, 12.0]
                .iter()
                .map(move |y| Some(State2::new(Float(*x), Float(*y))))
        })
        .collect();
    assert_eq!(chaos_data.data(), &expected);
}

#[test]
fn hyper_mesh_grid_orders_the_first_axis_slowest() {
    let axes = vec![vec![1u8, 2], vec![10, 20, 30], vec![7, 8]];
    let grid = hyper_mesh_grid(axes);
    assert_eq!(grid.len(), 3);
    assert_eq!(grid[0], vec![1, 1, 1, 1, 1, 1, 2, 2, 2, 2, 2, 2]);
    assert_eq!(grid[1], vec![10, 10, 20, 20, 30, 30, 10, 10, 20, 20, 30, 30]);
    assert_eq!(grid[2], vec![7, 8, 7, 8, 7, 8, 7, 8, 7, 8, 7, 8]);
    let four = hyper_mesh_grid(vec![vec![0u8, 1], vec![0, 1], vec![0, 1], vec![0, 1]]);
    assert_eq!(four.len(), 4);
    assert_eq!(four[0], vec![0, 0, 0, 0, 0, 0, 0, 0, 1, 1, 1, 1, 1, 1, 1, 1]);
    assert_eq!(four[3], vec![0, 1, 0, 1, 0, 1, 0, 1, 0, 1, 0, 1, 0, 1, 0, 1]);
    let one = hyper_mesh_grid(vec![vec![4u8, 5]]);
    assert_eq!(one, vec![vec![4, 5]]);
    let two = hyper_mesh_2(vec![vec![1u8, 2], vec![3, 4]]);
    assert_eq!(two, vec![vec![1, 1, 2, 2], vec![3, 4, 3, 4]]);
}

#[test]
fn reinit_fills_exactly_the_empty_slots() {
    let distr = vec![
        InitialDistributionVariant::Fixed(Fixed { value: Float(1.0) }),
        InitialDistributionVariant::Fixed(Fixed { value: Float(2.0) }),
    ];
    let mut chaos_data = ChaosData::<State2>::new(5, &distr);
    chaos_data.data_mut()[1] = None;
    chaos_data.data_mut()[3] = None;
    chaos_data.data_mut()[0] = Some(State2::new(Float(-4.0), Float(4.0)));
    let fresh = vec![
        InitialDistributionVariant::Fixed(Fixed { value: Float(7.0) }),
        InitialDistributionVariant::Linspace(Linspace {
            low: Float(0.0),
            high: Float(1.0),
        }),
    ];
    let indices = chaos_data.reinit_states(&fresh);
    assert_eq!(indices, vec![1, 3]);
    assert_eq!(
        chaos_data.data(),
        &[
            Some(State2::new(Float(-4.0), Float(4.0))),
            Some(State2::new(Float(7.0), Float(0.0))),
            Some(State2::new(Float(1.0), Float(2.0))),
            Some(State2::new(Float(7.0), Float(1.0))),
            Some(State2::new(Float(1.0), Float(2.0)))
        ]
    );
    assert_eq!(chaos_data.reinit_states(&fresh), Vec::<usize>::new());
    assert_eq!(chaos_data.empty_slot_indices(), Vec::<usize>::new());
}

#[test]
fn reinit_without_distributions_fills_nothing() {
    let mut chaos_data = ChaosData::<State1>::from_slots(vec![None, Some(State1::new(Float(1.0)))]);
    let none: Vec<InitialDistributionVariant<Float>> = Vec::new();
    assert_eq!(chaos_data.reinit_states(&none), vec![0]);
    assert_eq!(chaos_data.data(), &[None, Some(State1::new(Float(1.0)))]);
    assert_eq!(chaos_data.data_filtered(), vec![&State1::new(Float(1.0))]);
}

#[test]
fn reinit_draws_mesh_axes_uniformly() {
    let distr = vec![InitialDistributionVariant::Mesh(Mesh {
        start: Float(2.0),
        end: Float(3.0),
    })];
    let mut chaos_data = ChaosData::<State1>::from_slots(vec![None, None, None]);
    assert_eq!(chaos_data.reinit_states(&distr), vec![0, 1, 2]);
    for slot in chaos_data.data() {
        let x = slot.expect("every slot is filled").get(0).0;
        assert!((2.0..3.0).contains(&x));
    }
}

#[test]
fn mesh_spaces() {
    let mesh = InitialDistributionVariant::Mesh(Mesh {
        start: Float(-1.0),
        end: Float(2.0),
    });
    assert!(mesh.is_mesh());
    assert!(!normal_default().is_mesh());
    assert!(
        mesh.space_from_mesh()
            == InitialDistributionVariant::Linspace(Linspace {
                low: Float(-1.0),
                high: Float(2.0)
            })
    );
    assert!(
        mesh.random_space_from_mesh()
            == InitialDistributionVariant::Uniform(Uniform {
                low: Float(-1.0),
                high: Float(2.0)
            })
    );
    assert!(normal_default().random_space_from_mesh() == normal_default());
    assert_eq!(mesh.name(), "Mesh");
    assert_eq!(normal_default().name(), "Normal");
}

#[test]
fn generated_features() {
    let lin = Linspace {
        low: Float(1.0),
        high: Float(2.0),
    };
    assert_eq!(linspace(1, &lin), vec![Float(1.0)]);
    assert_eq!(linspace(0, &lin), Vec::<Float>::new());
    assert_eq!(
        linspace(5, &lin),
        vec![Float(1.0), Float(1.25), Float(1.5), Float(1.75), Float(2.0)]
    );
    let unit = Eye { value: Float(9.0) };
    assert_eq!(
        eye(3, &unit, 1),
        vec![Float(0.0), Float(9.0), Float(0.0)]
    );
    assert_eq!(eye(2, &unit, 5), vec![Float(0.0), Float(0.0)]);
    assert_eq!(
        fixed(2, &Fixed { value: Float(3.5) }),
        vec![Float(3.5), Float(3.5)]
    );
    let negative = Geomspace {
        start: Float(-1.0),
        end: Float(-100.0),
    };
    let values = geomspace(3, &negative);
    assert_eq!(values.len(), 3);
    assert_eq!(values[0], Float(-1.0));
    assert!((values[1].0 + 10.0).abs() < 1e-12);
    let drawn = data_gen_from_distribution(
        &InitialDistributionVariant::Uniform(Uniform {
            low: Float(0.0),
            high: Float(1.0),
        }),
        20,
    );
    assert_eq!(drawn.len(), 20);
    assert!(drawn.iter().all(|x| (0.0..1.0).contains(&x.0)));
    assert_eq!(
        InitialDistributionVariant::Fixed(Fixed { value: Float(1.5) }).data_generation(2),
        vec![Float(1.5), Float(1.5)]
    );
}

#[test]
fn parameter_checks() {
    let mut t = Triangular {
        low: Float(1.0),
        high: Float(0.0),
        mode: Float(5.0),
    };
    triangular_check(&mut t);
    assert!(
        t == Triangular {
            low: Float(1.0),
            high: Float(5.0),
            mode: Float(5.0)
        }
    );
    let mut t = Triangular {
        low: Float(1.0),
        high: Float(3.0),
        mode: Float(0.0),
    };
    t.par_range_check();
    assert!(
        t == Triangular {
            low: Float(1.0),
            high: Float(3.0),
            mode: Float(1.0)
        }
    );
    let mut g = Geomspace {
        start: Float(0.0),
        end: Float(-4.0),
    };
    geomspace_check(&mut g);
    assert!(
        g == Geomspace {
            start: Float(-4.0),
            end: Float(-f64::EPSILON)
        }
    );
    let mut g = Geomspace {
        start: Float(2.0),
        end: Float(2.0),
    };
    g.par_range_check();
    assert!(
        g == Geomspace {
            start: Float(2.0),
            end: Float(2.0 + f64::EPSILON)
        }
    );
    let mut n = Normal {
        mean: Float(3.0),
        std_dev: Float(-1.0),
    };
    n.par_range_check();
    assert!(
        n == Normal {
            mean: Float(3.0),
            std_dev: Float(-1.0)
        }
    );
    let mut x = 5u8;
    no_check(&mut x);
    assert_eq!(x, 5);
}

#[test]
fn defaults_and_references() {
    assert!(
        Triangular::<Float>::default()
            == Triangular {
                low: Float(0.0),
                high: Float(1.0),
                mode: Float(0.5)
            }
    );
    assert!(
        Geomspace::<Float>::default()
            == Geomspace {
                start: Float(1.0),
                end: Float(1000.0)
            }
    );
    assert!(
        Logspace::<Float>::default()
            == Logspace {
                start: Float(0.0),
                end: Float(3.0),
                base: Float(2.0)
            }
    );
    assert!(
        Uniform::<Float>::default()
            == Uniform {
                low: Float(-1.0),
                high: Float(1.0)
            }
    );
    assert_eq!(
        Cauchy::<Float>::default().reference(),
        "https://wikipedia.org/wiki/Cauchy_distribution"
    );
    assert_eq!(
        Logspace::<Float>::default().to_string(),
        "Logspace( start=0.00 end=3.00 base=2.00 )"
    );
    assert_eq!(
        Fixed { value: Float(1.239) }.description(),
        "Each data sample will have the same real number: Fixed( value=1.24 )"
    );
}

#[test]
fn dimensions() {
    assert_eq!(DistributionDimensions::State(0).number_of_dimensions(), 0);
    assert_eq!(DistributionDimensions::State(1).number_of_dimensions(), 1);
    assert_eq!(DistributionDimensions::State(3).number_of_dimensions(), 5);
    assert_eq!(DistributionDimensions::Particle(2).number_of_dimensions(), 8);
    assert_eq!(DistributionDimensions::Particle(3).number_of_dimensions(), 10);
    assert_eq!(
        DistributionDimensions::Fractal(FractalDimensions::Dual).number_of_dimensions(),
        5
    );
    assert_eq!(
        DistributionDimensions::Fractal(FractalDimensions::Quaternion).number_of_dimensions(),
        9
    );
    assert_eq!(DistributionDimensions::State(3).num_init_dimensions(), 3);
    assert_eq!(DistributionDimensions::Particle(2).num_init_dimensions(), 7);
    assert_eq!(DistributionDimensions::Particle(3).num_init_dimensions(), 9);
    assert_eq!(
        DistributionDimensions::Fractal(FractalDimensions::Complex).num_init_dimensions(),
        2
    );
    assert_eq!(
        DistributionDimensions::Fractal(FractalDimensions::Quaternion).num_init_dimensions(),
        4
    );
}

#[test]
fn ensembles_by_configuration() {
    let fixed = |x: f64| InitialDistributionVariant::Fixed(Fixed { value: Float(x) });
    let config = InitialDistributionConfig::States(vec![fixed(1.0), fixed(2.0)]);
    assert_eq!(config.dimensionality(), DistributionDimensions::State(2));
    assert_eq!(config.label(), "Fixed Fixed");
    match ChaosDataVariant::generate_initial_chaos_data(2, &config) {
        Ok(ChaosDataVariant::State2(data)) => {
            assert_eq!(
                data.data(),
                &[
                    Some(State2::new(Float(1.0), Float(2.0))),
                    Some(State2::new(Float(1.0), Float(2.0)))
                ]
            );
            let variant = ChaosDataVariant::State2(data);
            let list = ChaosDataVec::from_chaos_data(&variant);
            assert_eq!(list.dimensionality(), DistributionDimensions::State(2));
            assert!(matches!(list, ChaosDataVec::State2(ref v) if v.len() == 1));
        }
        _ => panic!("two distributions give states of two components"),
    }
    let too_many = InitialDistributionConfig::States(vec![fixed(0.0); 5]);
    match ChaosDataVariant::generate_initial_chaos_data(2, &too_many) {
        Err(e) => {
            assert_eq!(e, ChaosError::DimensionsNotImplemented);
            assert_eq!(e.message(), "More than 4 dimensions are not implemented!");
        }
        Ok(_) => panic!("five components are refused"),
    }
    let empty = InitialDistributionConfig::<Float>::default();
    assert_eq!(empty.label(), "empty");
    assert_eq!(empty.dimensionality(), DistributionDimensions::State(0));
    assert!(ChaosDataVariant::generate_initial_chaos_data(2, &empty).is_err());
    let fractal = InitialDistributionConfig::FractalQuaternion([
        fixed(1.0),
        fixed(2.0),
        fixed(3.0),
        fixed(4.0),
    ]);
    assert_eq!(fractal.label(), "Fractal Quaternion");
    assert_eq!(
        fractal.dimensionality(),
        DistributionDimensions::Fractal(FractalDimensions::Quaternion)
    );
    match ChaosDataVariant::generate_initial_chaos_data(1, &fractal) {
        Ok(ChaosDataVariant::FractalQuaternion(data)) => {
            let point = data.data()[0].as_ref().expect("the slot is filled");
            assert_eq!(point.z_0().k, Float(4.0));
            assert_eq!(point.ind(4), Float(0.0));
            assert_eq!(point.ind(8), Float(4.0));
            assert_eq!(point.ind(9), Float(0.0));
        }
        _ => panic!("a quaternion fractal is asked for"),
    }
    let particles = InitialDistributionConfig::ParticleXY([
        fixed(1.0),
        fixed(0.0),
        fixed(4.0),
        fixed(0.5),
        fixed(0.25),
        fixed(-1.0),
        fixed(-2.0),
    ]);
    assert_eq!(particles.label(), "Particles 3D");
    assert_eq!(particles.dimensionality(), DistributionDimensions::Particle(2));
    match ChaosDataVariant::generate_initial_chaos_data(1, &particles) {
        Ok(ChaosDataVariant::ParticleXY(data)) => {
            let p = data.data()[0].as_ref().expect("the slot is filled");
            assert_eq!(p.mass, Float(4.0));
            assert_eq!(p.radius, Float(2.0));
            assert_eq!(p.ind(0), Float(0.5));
            assert_eq!(p.ind(3), Float(-2.0));
            assert_eq!(p.ind(4), Float(1.0));
            assert_eq!(p.ind(6), Float(4.0));
            assert_eq!(p.ind(7), Float(2.0));
            assert_eq!(p.ind(8), Float(0.0));
            assert!(p.is_valid());
        }
        _ => panic!("particles of the plane are asked for"),
    }
}

#[test]
fn kinds_of_sample_must_agree() {
    let plane = DistributionDimensions::State(2);
    assert_eq!(check_dimensions(&plane, &DistributionDimensions::State(2)), Ok(()));
    assert_eq!(
        check_dimensions(&plane, &DistributionDimensions::State(3)),
        Err(ChaosError::DimensionMismatch)
    );
    assert_eq!(
        check_dimensions(&plane, &DistributionDimensions::Particle(2)),
        Err(ChaosError::DimensionMismatch)
    );
    assert_eq!(
        check_dimensions(
            &DistributionDimensions::Fractal(FractalDimensions::Dual),
            &DistributionDimensions::Fractal(FractalDimensions::Dual)
        ),
        Ok(())
    );
    assert_eq!(
        check_dimensions(
            &DistributionDimensions::Fractal(FractalDimensions::Dual),
            &DistributionDimensions::Fractal(FractalDimensions::Perplex)
        ),
        Err(ChaosError::DimensionMismatch)
    );
    assert_eq!(
        ChaosError::DimensionMismatch.message(),
        "Dimension mismatch between data and discrete map / ode-system. Removing the chaotic function!"
    );
}

#[test]
fn the_damping_term_of_the_kicked_rotor() {
    assert_eq!(zaslavskii_mu(Float(2.0)), Float((1.0 - (-2.0f64).exp()) / 2.0));
    assert_eq!(zaslavskii_mu(Float(-0.5)), Float((1.0 - 0.5f64.exp()) / -0.5));
    assert!(zaslavskii_mu(Float(0.0)).0.is_nan());
}

#[test]
fn admissible_parameters() {
    let normal = |std_dev: f64| {
        InitialDistributionVariant::Normal(Normal {
            mean: Float(0.0),
            std_dev: Float(std_dev),
        })
    };
    assert!(normal(1.0).is_admissible());
    assert!(normal(-1.0).is_admissible());
    assert!(!normal(f64::INFINITY).is_admissible());
    assert!(!normal(f64::NAN).is_admissible());
    let uniform = |low: f64, high: f64| {
        InitialDistributionVariant::Uniform(Uniform {
            low: Float(low),
            high: Float(high),
        })
    };
    assert!(uniform(0.0, 1.0).is_admissible());
    assert!(!uniform(1.0, 1.0).is_admissible());
    assert!(!uniform(2.0, 1.0).is_admissible());
    assert!(!uniform(-f64::MAX, f64::MAX).is_admissible());
    assert!(!uniform(0.0, f64::INFINITY).is_admissible());
    let cauchy = |scale: f64| {
        InitialDistributionVariant::Cauchy(Cauchy {
            median: Float(0.0),
            scale: Float(scale),
        })
    };
    assert!(cauchy(0.5).is_admissible());
    assert!(!cauchy(0.0).is_admissible());
    let triangular = |low: f64, high: f64, mode: f64| {
        InitialDistributionVariant::Triangular(Triangular {
            low: Float(low),
            high: Float(high),
            mode: Float(mode),
        })
    };
    assert!(triangular(0.0, 1.0, 0.5).is_admissible());
    assert!(triangular(1.0, 1.0, 1.0).is_admissible());
    assert!(!triangular(0.0, 1.0, 2.0).is_admissible());
    assert!(!triangular(1.0, 0.0, 0.5).is_admissible());
    assert!(freedom_is_admissible(Float(1.0)));
    assert!(freedom_is_admissible(Float(3.0)));
    assert!(!freedom_is_admissible(Float(0.0)));
    assert!(!freedom_is_admissible(Float(5e-324)));
    assert!(!freedom_is_admissible(Float(-2.0)));
    let fixed = InitialDistributionVariant::Fixed(Fixed { value: Float(f64::NAN) });
    assert!(fixed.is_admissible());
    assert!(are_admissible(&[normal(1.0), fixed, uniform(0.0, 1.0)]));
    assert!(!are_admissible(&[normal(1.0), cauchy(-1.0)]));
    assert!(are_admissible::<Float>(&[]));
    let drawn = data_gen_from_distribution(&triangular(1.0, 1.0, 1.0), 3);
    assert_eq!(drawn, vec![Float(1.0); 3]);
}
