use erpnext_domain::decimal::Dec;
use erpnext_domain::manufacturing::bom::{
    calculate_bom_cost, calculate_bom_valuation, generate_bom_dag_query, BOMComponent, BOMNode, BOMOperation,
};
use erpnext_domain::manufacturing::mrp::{run_mrp_pipeline, DemandSource};
use erpnext_domain::maps::DecimalMap;

fn leaf() -> BOMNode {
    BOMNode { item_id: String::new(), is_phantom: false, components: vec![], operations: vec![] }
}

fn op(id: &str, ws: &str, mins: Dec, hour: Dec, labor: Dec, wear: Dec, batch: Dec) -> BOMOperation {
    BOMOperation {
        operation_id: id.to_string(),
        workstation: ws.to_string(),
        time_in_mins: mins,
        hour_rate: hour,
        labor_rate: labor,
        machine_wear_rate: wear,
        batch_size: batch,
    }
}

#[test]
fn test_phantom_bom_cost() {
    let child_comp = BOMComponent {
        child_node: BOMNode {
            item_id: "raw_material".to_string(),
            is_phantom: false,
            components: vec![],
            operations: vec![],
        },
        qty: Dec::new(2, 0),
        rate: Dec::new(5, 0),
    };
    let phantom_node = BOMNode {
        item_id: "phantom_assembly".to_string(),
        is_phantom: true,
        components: vec![child_comp],
        operations: vec![op("op_phantom", "bench_1", Dec::new(60, 0), Dec::new(2, 0), Dec::new(0, 0), Dec::new(0, 0), Dec::new(1, 0))],
    };
    // 3 phantom assemblies of 12 each, plus 10 of routing: 46.
    let parent_comp = BOMComponent { child_node: phantom_node, qty: Dec::new(3, 0), rate: Dec::zero() };
    let parent_node = BOMNode {
        item_id: "finished_product".to_string(),
        is_phantom: false,
        components: vec![parent_comp],
        operations: vec![op("op_parent", "bench_2", Dec::new(30, 0), Dec::new(20, 0), Dec::new(0, 0), Dec::new(0, 0), Dec::new(1, 0))],
    };

    let total_cost = calculate_bom_cost(&parent_node);
    assert_eq!(total_cost, Dec::new(46, 0));
}

#[test]
fn test_complex_bom_valuation() {
    let raw_a = BOMComponent { child_node: leaf(), qty: Dec::new(25, 1), rate: Dec::new(100, 1) };
    let raw_b = BOMComponent { child_node: leaf(), qty: Dec::new(10, 1), rate: Dec::new(150, 1) };
    let sub_assembly = BOMNode {
        item_id: "sub_assembly".to_string(),
        is_phantom: false,
        components: vec![raw_a, raw_b],
        operations: vec![op(
            "op_sub",
            "workstation_sub",
            Dec::new(120, 0),
            Dec::new(50, 1),
            Dec::new(125, 1),
            Dec::new(25, 1),
            Dec::new(1, 0),
        )],
    };
    let parent_comp = BOMComponent { child_node: sub_assembly, qty: Dec::new(10, 1), rate: Dec::new(0, 0) };
    let parent_node = BOMNode {
        item_id: "fg_product".to_string(),
        is_phantom: false,
        components: vec![parent_comp],
        operations: vec![op(
            "op_parent",
            "workstation_parent",
            Dec::new(60, 0),
            Dec::new(300, 1),
            Dec::new(400, 1),
            Dec::new(100, 1),
            Dec::new(5, 0),
        )],
    };

    let valuation = calculate_bom_valuation(&parent_node, Dec::new(10, 0));
    assert_eq!(valuation.material_cost, Dec::new(4000, 1));
    assert_eq!(valuation.operating_cost, Dec::new(1600, 1));
    assert_eq!(valuation.labor_cost, Dec::new(3300, 1));
    assert_eq!(valuation.machine_wear_cost, Dec::new(700, 1));
    assert_eq!(valuation.total_cost, Dec::new(9600, 1));
}

#[test]
fn zero_batch_size_counts_as_one() {
    let node = BOMNode {
        item_id: "x".to_string(),
        is_phantom: false,
        components: vec![],
        operations: vec![op("o", "w", Dec::new(60, 0), Dec::new(7, 0), Dec::new(3, 0), Dec::new(1, 0), Dec::zero())],
    };
    let v = calculate_bom_valuation(&node, Dec::new(2, 0));
    assert_eq!(v.operating_cost, Dec::new(14, 0));
    assert_eq!(v.labor_cost, Dec::new(6, 0));
    assert_eq!(v.machine_wear_cost, Dec::new(2, 0));
    assert_eq!(v.total_cost, Dec::new(22, 0));
}

#[test]
fn bom_dag_query_text() {
    assert_eq!(
        generate_bom_dag_query("widget"),
        "SELECT ->requires->bom_node.* AS components FROM item:widget FETCH components;"
    );
}

#[test]
fn test_mrp_pipeline_shortage_calculation() {
    let demands = vec![
        DemandSource { order_id: "ORD-1".into(), item_id: "ITEM-A".into(), qty: Dec::new(1000, 1) },
        DemandSource { order_id: "ORD-2".into(), item_id: "ITEM-B".into(), qty: Dec::new(500, 1) },
        DemandSource { order_id: "ORD-3".into(), item_id: "ITEM-A".into(), qty: Dec::new(200, 1) },
    ];

    let mut stocks = DecimalMap::new();
    stocks.insert("ITEM-A".into(), Dec::new(800, 1));
    stocks.insert("ITEM-B".into(), Dec::new(600, 1));

    let results = run_mrp_pipeline(demands, stocks);
    assert_eq!(results.len(), 3);

    let a_shortages: Vec<_> = results.iter().filter(|r| r.item_id == "ITEM-A").collect();
    let b_shortages: Vec<_> = results.iter().filter(|r| r.item_id == "ITEM-B").collect();

    // Each demand is measured against the whole stock of its item.
    assert!(a_shortages.iter().any(|r| r.shortage_qty == Dec::new(200, 1)));
    assert!(a_shortages.iter().any(|r| r.shortage_qty == Dec::new(0, 1)));
    assert_eq!(b_shortages[0].shortage_qty, Dec::new(0, 1));
}

#[test]
fn unstocked_items_lack_their_whole_demand() {
    let demands = vec![DemandSource { order_id: "O".into(), item_id: "NEW".into(), qty: Dec::new(7, 0) }];
    let results = run_mrp_pipeline(demands, DecimalMap::new());
    assert_eq!(results[0].shortage_qty, Dec::new(7, 0));
}
