use iron_brains::model::network::Connection;
use iron_brains::model::network::Network;

#[test]
fn new_network_has_no_edges() {
    let network = Network::new(3);
    for cell in 0..3usize {
        assert!(network.outgoing_connections(cell).is_empty());
        assert!(network.incoming_connections(cell).is_empty());
    }
}

#[test]
fn connect_records_the_edge_on_both_sides() {
    let mut network = Network::new(3);
    network.connect(0, 1, 0);
    network.connect(1, 2, 1);
    network.connect(0, 2, 2);

    let out0 = network.outgoing_connections(0);
    assert_eq!(out0.len(), 2);
    assert_eq!(
        out0[0],
        Connection { pre_cell_index: 0, post_cell_index: 1, synapse_index: 0 }
    );
    assert_eq!(
        out0[1],
        Connection { pre_cell_index: 0, post_cell_index: 2, synapse_index: 2 }
    );

    let in2 = network.incoming_connections(2);
    assert_eq!(in2.len(), 2);
    assert_eq!(in2[0].synapse_index, 1);
    assert_eq!(in2[1].synapse_index, 2);

    assert_eq!(network.outgoing_connections(2).len(), 0);
    assert_eq!(network.incoming_connections(0).len(), 0);
}

#[test]
fn every_edge_appears_once_per_side() {
    let mut network = Network::new(4);
    let edges = [(0usize, 1usize), (0, 2), (1, 2), (2, 0), (3, 3)];
    for (synapse_index, (pre, post)) in edges.iter().enumerate() {
        network.connect(*pre, *post, synapse_index);
    }
    for (synapse_index, (pre, post)) in edges.iter().enumerate() {
        let outgoing = network.outgoing_connections(*pre);
        let occurrences_out = outgoing
            .iter()
            .filter(|c| c.synapse_index == synapse_index)
            .count();
        assert_eq!(occurrences_out, 1);
        let incoming = network.incoming_connections(*post);
        let occurrences_in = incoming
            .iter()
            .filter(|c| c.synapse_index == synapse_index)
            .count();
        assert_eq!(occurrences_in, 1);
    }
}

#[test]
fn self_loop_is_outgoing_and_incoming() {
    let mut network = Network::new(2);
    network.connect(1, 1, 0);
    assert_eq!(network.outgoing_connections(1).len(), 1);
    assert_eq!(network.incoming_connections(1).len(), 1);
    assert_eq!(network.outgoing_connections(1)[0].synapse_index, 0);
}
