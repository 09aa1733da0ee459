use bellman::{Circuit, ConstraintSystem, LinearCombination, SynthesisError, Variable};
use bls12_381::Scalar;
use factor_proof::field::FieldElement;
use factor_proof::relation::{self, Mode, RelationBuilder, VarKind};

/// Hands a relation recorded by the library to bellman, slot for slot.
pub struct Replay(pub RelationBuilder);

fn to_scalar(x: FieldElement) -> Scalar {
    let bytes: [u8; 32] = x.to_le_bytes().try_into().expect("32 bytes");
    Scalar::from_bytes(&bytes).expect("canonical field element")
}

fn value(mode: Mode, x: Option<FieldElement>) -> Result<Scalar, SynthesisError> {
    match (mode, x) {
        (Mode::Prove, Some(x)) => Ok(to_scalar(x)),
        _ => Err(SynthesisError::AssignmentMissing),
    }
}

fn combination(
    lc: &relation::LinearCombination,
    inputs: &[Variable],
    aux: &[Variable],
) -> LinearCombination<Scalar> {
    lc.terms.iter().fold(LinearCombination::zero(), |acc, (v, k)| {
        let var = match v.kind {
            VarKind::Input => inputs[v.index],
            VarKind::Aux => aux[v.index],
        };
        acc + (to_scalar(*k), var)
    })
}

impl Circuit<Scalar> for Replay {
    fn synthesize<CS: ConstraintSystem<Scalar>>(self, cs: &mut CS) -> Result<(), SynthesisError> {
        let rel = self.0;
        let mode = rel.mode();
        let mut inputs = vec![CS::one()];
        for i in 1..rel.num_inputs() {
            inputs.push(cs.alloc_input(|| format!("input {}", i), || value(mode, rel.input_value(i)))?);
        }
        let mut aux = Vec::new();
        for i in 0..rel.num_aux() {
            aux.push(cs.alloc(|| format!("aux {}", i), || value(mode, rel.aux_value(i)))?);
        }
        for (j, c) in rel.constraints().iter().enumerate() {
            cs.enforce(
                || format!("constraint {}", j),
                |_| combination(&c.a, &inputs, &aux),
                |_| combination(&c.b, &inputs, &aux),
                |_| combination(&c.c, &inputs, &aux),
            );
        }
        Ok(())
    }
}


use bellman::groth16::{
    create_random_proof, generate_random_parameters, prepare_verifying_key, verify_proof,
};
use bls12_381::Bls12;
use factor_proof::pipeline::{
    factorization_setup, factorization_witness, proof_document, public_document, verifier_setup,
    verifier_witness,
};
use factor_proof::circuits::ProofPoints;
use rand::rngs::OsRng;

fn fe(s: &str) -> FieldElement {
    FieldElement::from_decimal(s).expect("valid field element")
}

fn prove_product(n: &str, p: &str, q: &str) -> (bellman::groth16::PreparedVerifyingKey<Bls12>, bellman::groth16::Proof<Bls12>) {
    let params = generate_random_parameters::<Bls12, _, _>(Replay(factorization_setup()), &mut OsRng).unwrap();
    let pvk = prepare_verifying_key(&params.vk);
    let filled = factorization_witness(fe(n), fe(p), fe(q)).unwrap();
    let proof = create_random_proof(Replay(filled), &params, &mut OsRng).unwrap();
    (pvk, proof)
}

#[test]
fn proof_of_factorization_verifies_only_for_its_statement() {
    let (pvk, proof) = prove_product("391", "17", "23");
    assert!(verify_proof(&pvk, &proof, &[to_scalar(fe("391"))]).is_ok());
    assert!(verify_proof(&pvk, &proof, &[to_scalar(fe("390"))]).is_err());
    assert!(verify_proof(&pvk, &proof, &[]).is_err());
}

#[test]
fn parameters_from_two_setups_both_serve() {
    let first = generate_random_parameters::<Bls12, _, _>(Replay(factorization_setup()), &mut OsRng).unwrap();
    let second = generate_random_parameters::<Bls12, _, _>(Replay(factorization_setup()), &mut OsRng).unwrap();
    let a = create_random_proof(Replay(factorization_witness(fe("391"), fe("17"), fe("23")).unwrap()), &first, &mut OsRng).unwrap();
    let b = create_random_proof(Replay(factorization_witness(fe("35"), fe("5"), fe("7")).unwrap()), &second, &mut OsRng).unwrap();
    assert!(verify_proof(&prepare_verifying_key(&first.vk), &a, &[to_scalar(fe("391"))]).is_ok());
    assert!(verify_proof(&prepare_verifying_key(&second.vk), &b, &[to_scalar(fe("35"))]).is_ok());
}

fn le_coordinate(be: &[u8]) -> Vec<u8> {
    let mut le = be.to_vec();
    le[0] &= 0x1f;
    le.reverse();
    le
}

fn proof_coordinates(proof: &bellman::groth16::Proof<Bls12>) -> Vec<Vec<u8>> {
    let a = proof.a.to_uncompressed();
    let b = proof.b.to_uncompressed();
    let c = proof.c.to_uncompressed();
    vec![
        le_coordinate(&a[0..48]),
        le_coordinate(&a[48..96]),
        le_coordinate(&b[48..96]),
        le_coordinate(&b[0..48]),
        le_coordinate(&b[144..192]),
        le_coordinate(&b[96..144]),
        le_coordinate(&c[0..48]),
        le_coordinate(&c[48..96]),
    ]
}

#[test]
fn outer_relation_is_refused_by_the_backend() {
    // Its coordinate slots appear in no constraint, which bellman refuses.
    let (_, inner) = prove_product("391", "17", "23");
    let points = ProofPoints::from_coordinates(&proof_coordinates(&inner));
    let outer = verifier_witness(points, FieldElement::one()).unwrap();
    assert!(outer.is_satisfied());
    let params = generate_random_parameters::<Bls12, _, _>(Replay(verifier_setup()), &mut OsRng);
    assert!(matches!(params, Err(SynthesisError::UnconstrainedVariable)));
}

fn proof_json(texts: &factor_proof::pipeline::ProofDocument) -> serde_json::Value {
    let strings = |v: &Vec<String>| serde_json::Value::Array(v.iter().map(|s| serde_json::Value::String(s.clone())).collect());
    let mut map = serde_json::Map::new();
    map.insert("pi_a".to_string(), strings(&texts.pi_a));
    map.insert("pi_b".to_string(), serde_json::Value::Array(texts.pi_b.iter().map(strings).collect()));
    map.insert("pi_c".to_string(), strings(&texts.pi_c));
    serde_json::Value::Object(map)
}

fn reencode(v: &serde_json::Value) -> serde_json::Value {
    match v {
        serde_json::Value::String(s) => {
            let bytes: Vec<u8> = {
                // decimal text to little-endian bytes
                let mut digits: Vec<u8> = Vec::new();
                for c in s.chars() {
                    let d = c.to_digit(10).expect("decimal digit") as u8;
                    let mut carry = d as u32;
                    for byte in digits.iter_mut() {
                        let t = (*byte as u32) * 10 + carry;
                        *byte = (t & 0xff) as u8;
                        carry = t >> 8;
                    }
                    while carry > 0 {
                        digits.push((carry & 0xff) as u8);
                        carry >>= 8;
                    }
                }
                digits
            };
            serde_json::Value::String(factor_proof::decimal::decimal_of_le_bytes(&bytes))
        }
        serde_json::Value::Array(items) => serde_json::Value::Array(items.iter().map(reencode).collect()),
        serde_json::Value::Object(map) => {
            serde_json::Value::Object(map.iter().map(|(k, v)| (k.clone(), reencode(v))).collect())
        }
        other => other.clone(),
    }
}

#[test]
fn written_json_round_trips_byte_for_byte() {
    let (_, proof) = prove_product("391", "17", "23");
    let text = serde_json::to_string_pretty(&proof_json(&proof_document(&proof_coordinates(&proof)))).unwrap();
    let parsed: serde_json::Value = serde_json::from_str(&text).unwrap();
    assert_eq!(serde_json::to_string_pretty(&reencode(&parsed)).unwrap(), text);

    let mut public = serde_json::Map::new();
    for s in public_document(&vec![fe("391")]) {
        public.insert("N".to_string(), serde_json::Value::String(s));
    }
    let text = serde_json::to_string_pretty(&serde_json::Value::Object(public)).unwrap();
    assert_eq!(text, "{\n  \"N\": \"391\"\n}");
    let parsed: serde_json::Value = serde_json::from_str(&text).unwrap();
    let n = FieldElement::from_decimal(parsed["N"].as_str().unwrap()).unwrap();
    let mut again = serde_json::Map::new();
    again.insert("N".to_string(), serde_json::Value::String(n.to_decimal()));
    assert_eq!(serde_json::to_string_pretty(&serde_json::Value::Object(again)).unwrap(), text);
}
