# good_bug

Software of a small weeding robot: the robot runs visual SLAM (OpenVSlam),
drives towards goals on the map, reports its status, and is steered from a
remote-control user interface.

`src/` is a verified library (Verus) holding the decisions and bookkeeping
that do not depend on floating point:

- `settings`: the map catalogue of the SLAM settings (current map, recorded
  maps, waypoints), with laws on reading back what was recorded;
- `map_updater`, `robot_params_echo`, `msg`: how the robot reacts to the
  remote control's requests, and which messages are commands;
- `landmark_classifier`: per-landmark class votes from object detections,
  and the ids of localized detections;
- `edges`, `map_mirror`: the remote control's copy of the SLAM graph;
- `navigation`: what the wheels do on each tick (teleoperation, driving to
  a goal), once the geometry has placed the goal;
- `drive_commands`: the remote control's pending step and held speed;
- `ui_state`, `saved_images`, `teleop`, `signal_map`: remote-control state
  (connection history, numbering of saved frames, joypad buttons and arrow
  directions, signal routing);
- `paths`, `openvslam`, `system_info`: configuration paths, the OpenVSlam
  command line, the requests the bus sends to OpenVSlam and the loop that
  restarts it after clean exits, the CPU temperature sensor;
- `utils`: a slot that keeps only the latest value.

`app/` is the program that runs on the robot: the message bus, the wheel
and fan drivers, the system monitor, navigation (floating-point geometry)
and the settings files.

`tests/` runs the library on concrete values.
