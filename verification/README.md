# neuron_collector

The verified core of an industrial IoT data collector (AZ-IOT). The library
under `src/` holds, with Verus contracts and proofs:

- the device model and the protocol catalogue (`model`);
- the frame builders and reply decoders of the field protocols: Modbus,
  DL/T645, IEC 60870-5-101/104, DNP3, OPC UA, BACnet/IP, SNMP v2c, S7,
  FINS, EtherNet/IP, Mitsubishi MC, PROFIBUS DP, CAN (`modbus`, `dlt645`,
  ...), and the choice of driver per protocol (`driver`);
- the device registry with its bus groups, the judgement of each poll
  (failure kind, which readings are published) and the poll bookkeeping
  that decides when a device goes offline or comes back (`scheduler`);
- the readings of the HTTP-JSON and MQTT drivers, picked out of the JSON
  reply as number text (`http_poll`, `mqtt_driver`, over `json_doc`);
- the upload channel state machine (MQTT with HTTP fallback, `uploader`);
- aggregation windows and alarm rule selection (`reporter`);
- the line filtering of the local store (`storage`), the configuration
  file and server URL (`config`), and small text helpers (`text`).

Decoders return raw values (`bytes::RawValue`: integers and IEEE-754 bit
patterns); turning them into floating-point readings, and all I/O, is done by
the program under `app/`: drivers' sockets and serial ports, the MQTT and
HTTP clients, the poll loop, the heartbeat, the local files and the debug
console.
