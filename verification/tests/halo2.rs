use group::ff::PrimeField;
use halo2_proofs::circuit::{Layouter, SimpleFloorPlanner, Value};
use halo2_proofs::dev::MockProver;
use halo2_proofs::pasta::{EqAffine, Fp};
use halo2_proofs::plonk::{
    create_proof, keygen_pk, keygen_vk, verify_proof, Advice, Circuit as Halo2Circuit, Column,
    ConstraintSystem as Halo2System, Error, Expression as Halo2Expression, Instance, Selector,
    SingleVerifier, VirtualCells,
};
use halo2_proofs::poly::commitment::Params;
use halo2_proofs::poly::Rotation;
use halo2_proofs::transcript::{Blake2bRead, Blake2bWrite, Challenge255};
use rand::rngs::OsRng;

use constraint_engine::checker::{check_synthesized, SatisfiabilityResult};
use constraint_engine::chips::{rank1_as_gate, GatedCubicCircuit};
use constraint_engine::circuit::{synthesize_for_setup, Circuit};
use constraint_engine::constraint::Constraint;
use constraint_engine::cubic::CubicPlusLinearCircuit;
use constraint_engine::expression::Expression;
use constraint_engine::field::Field;
use constraint_engine::gated_range::GatedRangeCircuit;
use constraint_engine::pasta_field::PastaFp;
use constraint_engine::range_circuit::RangeProofCircuit;
use constraint_engine::system::{ConstraintSystem, Mode};
use constraint_engine::variable::VariableKind;

fn to_fp(x: &PastaFp) -> Fp {
    Option::from(Fp::from_repr(x.to_bytes())).unwrap()
}

trait Blank: Circuit<PastaFp> + Sized {
    fn blank() -> Self;
}

impl Blank for GatedCubicCircuit<PastaFp> {
    fn blank() -> Self {
        GatedCubicCircuit { x: None }
    }
}

impl Blank for GatedRangeCircuit {
    fn blank() -> Self {
        GatedRangeCircuit { input: None }
    }
}

impl Blank for CubicPlusLinearCircuit<PastaFp> {
    fn blank() -> Self {
        CubicPlusLinearCircuit { x: None }
    }
}

impl Blank for RangeProofCircuit<PastaFp> {
    fn blank() -> Self {
        RangeProofCircuit { x: None }
    }
}

struct Replay<C: Blank> {
    circuit: C,
}

#[derive(Clone)]
struct ReplayConfig {
    advice: Vec<Column<Advice>>,
    selector: Selector,
}

fn convert(
    expr: &Expression<PastaFp>,
    meta: &mut VirtualCells<'_, Fp>,
    advice: &[Column<Advice>],
    instance: Column<Instance>,
) -> Halo2Expression<Fp> {
    match expr {
        Expression::Constant(k) => Halo2Expression::Constant(to_fp(k)),
        Expression::Var(v) => match v.kind {
            VariableKind::ConstantOne => Halo2Expression::Constant(Fp::one()),
            VariableKind::Witness => meta.query_advice(advice[v.index], Rotation::cur()),
            VariableKind::PublicInput => meta.query_instance(instance, Rotation(v.index as i32)),
        },
        Expression::Neg(a) => -convert(a, meta, advice, instance),
        Expression::Sum(a, b) => {
            convert(a, meta, advice, instance) + convert(b, meta, advice, instance)
        }
        Expression::Product(a, b) => {
            convert(a, meta, advice, instance) * convert(b, meta, advice, instance)
        }
    }
}

impl<C: Blank> Halo2Circuit<Fp> for Replay<C> {
    type Config = ReplayConfig;
    type FloorPlanner = SimpleFloorPlanner;

    fn without_witnesses(&self) -> Self {
        Replay { circuit: C::blank() }
    }

    fn configure(meta: &mut Halo2System<Fp>) -> Self::Config {
        let structure = synthesize_for_setup::<PastaFp, C>(&C::blank());
        let advice: Vec<Column<Advice>> =
            (0..structure.num_witnesses()).map(|_| meta.advice_column()).collect();
        let instance = meta.instance_column();
        let selector = meta.selector();
        meta.create_gate("replay", |meta| {
            let active = meta.query_selector(selector);
            let mut gates = Vec::new();
            for i in 0..structure.num_constraints() {
                let expr = match structure.constraint(i) {
                    Constraint::Rank1 { a, b, c } => Some(rank1_as_gate(a, b, c)),
                    Constraint::Gated { selector: true, expr } => Some(expr.duplicate()),
                    Constraint::Gated { selector: false, .. } => None,
                };
                if let Some(expr) = expr {
                    gates.push(active.clone() * convert(&expr, meta, &advice, instance));
                }
            }
            gates
        });
        ReplayConfig { advice, selector }
    }

    fn synthesize(&self, config: Self::Config, mut layouter: impl Layouter<Fp>) -> Result<(), Error> {
        let mut system = ConstraintSystem::<PastaFp>::new(Mode::Proving);
        let values = match self.circuit.synthesize(&mut system) {
            Ok(()) => Some(system.assignment()),
            Err(_) => None,
        };
        layouter.assign_region(
            || "replay",
            |mut region| {
                config.selector.enable(&mut region, 0)?;
                for (i, column) in config.advice.iter().enumerate() {
                    let value = match values.and_then(|v| v.witnesses.get(i)) {
                        Some(x) => Value::known(to_fp(x)),
                        None => Value::unknown(),
                    };
                    region.assign_advice(|| "witness", *column, 0, || value)?;
                }
                Ok(())
            },
        )
    }
}

fn mock_accepts<C: Blank>(k: u32, circuit: C, public_inputs: Vec<Fp>) -> bool {
    MockProver::run(k, &Replay { circuit }, vec![public_inputs]).unwrap().verify().is_ok()
}

fn own_verdict<C: Blank>(circuit: &C) -> SatisfiabilityResult {
    let mut cs = ConstraintSystem::<PastaFp>::new(Mode::Proving);
    circuit.synthesize(&mut cs).unwrap();
    check_synthesized(&cs)
}

#[test]
fn mock_prover_on_the_gated_cubic_circuit() {
    let x = PastaFp::from_u64(3);
    let y = to_fp(&GatedCubicCircuit::evaluate(x));
    assert_eq!(y, Fp::from(35));
    assert!(mock_accepts(4, GatedCubicCircuit { x: Some(x) }, vec![y]));
    // With any other public input the proof fails.
    assert!(!mock_accepts(4, GatedCubicCircuit { x: Some(x) }, vec![y + Fp::one()]));
    let big = PastaFp::one().neg();
    let y = to_fp(&GatedCubicCircuit::evaluate(big));
    assert_eq!(y, Fp::from(3));
    assert!(mock_accepts(4, GatedCubicCircuit { x: Some(big) }, vec![y]));
}

#[test]
fn mock_prover_agrees_with_the_checker_on_ranges() {
    for (input, expected) in [(0u64, true), (12345678, true), (u32::MAX as u64, true), (1 << 32, false), (u64::MAX, false)] {
        let circuit = GatedRangeCircuit { input: Some(input) };
        assert_eq!(own_verdict(&circuit) == SatisfiabilityResult::Satisfied, expected);
        assert_eq!(mock_accepts(4, circuit, vec![]), expected);
    }
}

#[test]
fn mock_prover_on_rank_one_circuits() {
    // The rank-1 circuits go through as gates on a * b - c.
    let x = PastaFp::from_u64(3);
    assert!(mock_accepts(4, CubicPlusLinearCircuit { x: Some(x) }, vec![Fp::from(31)]));
    assert!(!mock_accepts(4, CubicPlusLinearCircuit { x: Some(x) }, vec![Fp::from(32)]));
    let x = PastaFp::from_u64(1234567890);
    assert!(mock_accepts(4, RangeProofCircuit { x: Some(x) }, vec![Fp::from(1234567890)]));
    let big = PastaFp::from_u64(1 << 32);
    assert_eq!(own_verdict(&RangeProofCircuit { x: Some(big) }), SatisfiabilityResult::Violated(32));
    assert!(!mock_accepts(4, RangeProofCircuit { x: Some(big) }, vec![Fp::from(1u64 << 32)]));
}

#[test]
fn halo2_proves_and_verifies_the_gated_range_circuit() {
    let k = 5;
    let params = Params::<EqAffine>::new(k);
    let circuit = Replay { circuit: GatedRangeCircuit { input: Some(12345678) } };
    let vk = keygen_vk(&params, &circuit).unwrap();
    let pk = keygen_pk(&params, vk.clone(), &circuit).unwrap();
    let instance: Vec<Fp> = Vec::new();
    let mut transcript = Blake2bWrite::<_, _, Challenge255<_>>::init(vec![]);
    create_proof(&params, &pk, &[circuit], &[&[&instance[..]]], OsRng, &mut transcript).unwrap();
    let proof = transcript.finalize();
    let strategy = SingleVerifier::new(&params);
    let mut transcript = Blake2bRead::<_, _, Challenge255<_>>::init(&proof[..]);
    assert!(verify_proof(&params, &vk, strategy, &[&[&instance[..]]], &mut transcript).is_ok());
    // A proof cut short is no proof.
    let strategy = SingleVerifier::new(&params);
    let mut transcript = Blake2bRead::<_, _, Challenge255<_>>::init(&proof[..proof.len() / 2]);
    assert!(verify_proof(&params, &vk, strategy, &[&[&instance[..]]], &mut transcript).is_err());
}
